//! Desktop handoff messages and geometry.
use vstd::prelude::*;

verus! {

/// Largest handoff token: the largest integer that every JSON reader keeps.
pub const MAX_TOKEN: u64 = 9_007_199_254_740_991;

/// Positions along an edge count from zero to this.
pub const FRACTION_MAX: u32 = 1_000_000;

/// Milliseconds after which a desktop request has failed.
pub const REQUEST_TIMEOUT_MS: u64 = 1_000;

#[derive(Clone, Copy, Debug, PartialEq, Eq, Structural)]
pub enum Edge {
    Left,
    Right,
    Top,
    Bottom,
}

#[derive(Clone, Copy, Debug, PartialEq, Eq, Structural)]
pub struct Rect {
    pub x: i32,
    pub y: i32,
    pub width: u32,
    pub height: u32,
}

#[derive(Clone, Copy, Debug, PartialEq, Eq, Structural)]
pub struct Point {
    pub x: i32,
    pub y: i32,
}

/// Monitors of one computer.
#[derive(Debug, PartialEq, Eq)]
pub struct Geometry {
    pub monitors: Vec<Rect>,
}

impl Rect {
    pub open spec fn right(self) -> int {
        self.x + self.width
    }

    pub open spec fn bottom(self) -> int {
        self.y + self.height
    }

    pub open spec fn covers(self, other: Rect) -> bool {
        self.x <= other.x && self.y <= other.y && other.right() <= self.right() && other.bottom()
            <= self.bottom()
    }
}

/// `bounds` is the smallest rectangle around all monitors.
pub open spec fn is_bounds(bounds: Rect, monitors: Seq<Rect>) -> bool {
    &&& forall|i: int| 0 <= i < monitors.len() ==> bounds.covers(#[trigger] monitors[i])
    &&& exists|i: int| 0 <= i < monitors.len() && (#[trigger] monitors[i]).x == bounds.x
    &&& exists|i: int| 0 <= i < monitors.len() && (#[trigger] monitors[i]).y == bounds.y
    &&& exists|i: int| 0 <= i < monitors.len() && (#[trigger] monitors[i]).right() == bounds.right()
    &&& exists|i: int|
        0 <= i < monitors.len() && (#[trigger] monitors[i]).bottom() == bounds.bottom()
}

/// Monitors have one smallest rectangle at most.
pub proof fn bounds_are_unique(first: Rect, second: Rect, monitors: Seq<Rect>)
    requires
        is_bounds(first, monitors),
        is_bounds(second, monitors),
    ensures
        first == second,
{
    let x1 = choose|i: int| 0 <= i < monitors.len() && (#[trigger] monitors[i]).x == first.x;
    let x2 = choose|i: int| 0 <= i < monitors.len() && (#[trigger] monitors[i]).x == second.x;
    let y1 = choose|i: int| 0 <= i < monitors.len() && (#[trigger] monitors[i]).y == first.y;
    let y2 = choose|i: int| 0 <= i < monitors.len() && (#[trigger] monitors[i]).y == second.y;
    let r1 = choose|i: int|
        0 <= i < monitors.len() && (#[trigger] monitors[i]).right() == first.right();
    let r2 = choose|i: int|
        0 <= i < monitors.len() && (#[trigger] monitors[i]).right() == second.right();
    let b1 = choose|i: int|
        0 <= i < monitors.len() && (#[trigger] monitors[i]).bottom() == first.bottom();
    let b2 = choose|i: int|
        0 <= i < monitors.len() && (#[trigger] monitors[i]).bottom() == second.bottom();
    assert(first.covers(monitors[x2]) && second.covers(monitors[x1]));
    assert(first.covers(monitors[y2]) && second.covers(monitors[y1]));
    assert(first.covers(monitors[r2]) && second.covers(monitors[r1]));
    assert(first.covers(monitors[b2]) && second.covers(monitors[b1]));
}

impl Geometry {
    /// The rectangle around all monitors, if there are any and it fits.
    pub fn bounds(&self) -> (result: Option<Rect>)
        ensures
            result matches Some(bounds) ==> is_bounds(bounds, self.monitors@),
            result is None ==> !exists|bounds: Rect| #[trigger]
                is_bounds(bounds, self.monitors@),
    {
        if self.monitors.len() == 0 {
            return None;
        }
        let first = self.monitors[0];
        let mut left: i64 = first.x as i64;
        let mut top: i64 = first.y as i64;
        let mut right: i64 = first.x as i64 + first.width as i64;
        let mut bottom: i64 = first.y as i64 + first.height as i64;
        let mut at: usize = 1;
        assert(self.monitors@[0] == first);
        while at < self.monitors.len()
            invariant
                1 <= at <= self.monitors@.len(),
                i32::MIN <= left <= i32::MAX,
                i32::MIN <= top <= i32::MAX,
                i32::MIN <= right <= 0x2_0000_0000,
                i32::MIN <= bottom <= 0x2_0000_0000,
                forall|i: int|
                    0 <= i < at ==> left <= (#[trigger] self.monitors@[i]).x && top
                        <= self.monitors@[i].y && self.monitors@[i].right() <= right
                        && self.monitors@[i].bottom() <= bottom,
                exists|i: int| 0 <= i < at && (#[trigger] self.monitors@[i]).x == left,
                exists|i: int| 0 <= i < at && (#[trigger] self.monitors@[i]).y == top,
                exists|i: int| 0 <= i < at && (#[trigger] self.monitors@[i]).right() == right,
                exists|i: int| 0 <= i < at && (#[trigger] self.monitors@[i]).bottom() == bottom,
            decreases self.monitors@.len() - at,
        {
            let monitor = self.monitors[at];
            assert(self.monitors@[at as int] == monitor);
            let monitor_right: i64 = monitor.x as i64 + monitor.width as i64;
            let monitor_bottom: i64 = monitor.y as i64 + monitor.height as i64;
            if (monitor.x as i64) < left {
                left = monitor.x as i64;
            }
            if (monitor.y as i64) < top {
                top = monitor.y as i64;
            }
            if monitor_right > right {
                right = monitor_right;
            }
            if monitor_bottom > bottom {
                bottom = monitor_bottom;
            }
            at = at + 1;
        }
        let width: i64 = right - left;
        let height: i64 = bottom - top;
        if width > u32::MAX as i64 || height > u32::MAX as i64 {
            proof {
                assert forall|bounds: Rect| #[trigger]
                    is_bounds(bounds, self.monitors@) implies false by {
                    let l = choose|i: int|
                        0 <= i < self.monitors@.len() && (#[trigger] self.monitors@[i]).x == left;
                    let r = choose|i: int|
                        0 <= i < self.monitors@.len() && (#[trigger] self.monitors@[i]).right()
                            == right;
                    let t = choose|i: int|
                        0 <= i < self.monitors@.len() && (#[trigger] self.monitors@[i]).y == top;
                    let b = choose|i: int|
                        0 <= i < self.monitors@.len() && (#[trigger] self.monitors@[i]).bottom()
                            == bottom;
                    assert(bounds.covers(self.monitors@[l]));
                    assert(bounds.covers(self.monitors@[r]));
                    assert(bounds.covers(self.monitors@[t]));
                    assert(bounds.covers(self.monitors@[b]));
                }
            }
            return None;
        }
        let bounds = Rect {
            x: left as i32,
            y: top as i32,
            width: width as u32,
            height: height as u32,
        };
        assert forall|i: int| 0 <= i < self.monitors@.len() implies bounds.covers(
            #[trigger] self.monitors@[i],
        ) by {}
        Some(bounds)
    }
}

#[derive(Clone, Copy, Debug, PartialEq, Eq, Structural)]
pub enum DesktopRequest {
    Snapshot,
    Prepare { token: u64, edge: Edge, start: u32, end: u32, position: u32 },
    Poll { token: u64 },
    Finish { token: u64 },
}

pub open spec fn valid_token(token: u64) -> bool {
    1 <= token <= MAX_TOKEN
}

impl DesktopRequest {
    /// Tokens stay within what every reader keeps, and a crossing lies on a part
    /// of an edge.
    pub open spec fn valid(self) -> bool {
        match self {
            DesktopRequest::Snapshot => true,
            DesktopRequest::Prepare { token, start, end, position, .. } => valid_token(token)
                && start < end && end <= FRACTION_MAX && start <= position && position <= end,
            DesktopRequest::Poll { token } => valid_token(token),
            DesktopRequest::Finish { token } => valid_token(token),
        }
    }

    pub fn is_valid(&self) -> (result: bool)
        ensures
            result == self.valid(),
    {
        match *self {
            DesktopRequest::Snapshot => true,
            DesktopRequest::Prepare { token, start, end, position, .. } => 1 <= token && token
                <= MAX_TOKEN && start < end && end <= FRACTION_MAX && start <= position
                && position <= end,
            DesktopRequest::Poll { token } => 1 <= token && token <= MAX_TOKEN,
            DesktopRequest::Finish { token } => 1 <= token && token <= MAX_TOKEN,
        }
    }
}

#[allow(inconsistent_fields)]
#[derive(Debug, PartialEq, Eq)]
pub enum DesktopResponse {
    Snapshot { geometry: Geometry },
    Prepared { geometry: Geometry, position: Point },
    Active,
    Returned { position: u32 },
    Finished,
    Unavailable { reason: String },
}

impl DesktopResponse {
    pub fn unavailable(reason: &str) -> (result: Self)
        ensures
            result matches DesktopResponse::Unavailable { reason: text } && text@ == reason@,
    {
        DesktopResponse::Unavailable { reason: reason.to_owned() }
    }
}

/// Name of a request in logs.
pub fn desktop_operation(request: &DesktopRequest) -> (result: &'static str)
    ensures
        result@ == match *request {
            DesktopRequest::Snapshot => "snapshot"@,
            DesktopRequest::Prepare { .. } => "prepare"@,
            DesktopRequest::Poll { .. } => "poll"@,
            DesktopRequest::Finish { .. } => "finish"@,
        },
{
    match request {
        DesktopRequest::Snapshot => "snapshot",
        DesktopRequest::Prepare { .. } => "prepare",
        DesktopRequest::Poll { .. } => "poll",
        DesktopRequest::Finish { .. } => "finish",
    }
}

/// Name of a response in logs.
pub fn desktop_response_kind(response: &DesktopResponse) -> (result: &'static str)
    ensures
        result@ == match *response {
            DesktopResponse::Snapshot { .. } => "snapshot"@,
            DesktopResponse::Prepared { .. } => "prepared"@,
            DesktopResponse::Active => "active"@,
            DesktopResponse::Returned { .. } => "returned"@,
            DesktopResponse::Finished => "finished"@,
            DesktopResponse::Unavailable { .. } => "unavailable"@,
        },
{
    match response {
        DesktopResponse::Snapshot { .. } => "snapshot",
        DesktopResponse::Prepared { .. } => "prepared",
        DesktopResponse::Active => "active",
        DesktopResponse::Returned { .. } => "returned",
        DesktopResponse::Finished => "finished",
        DesktopResponse::Unavailable { .. } => "unavailable",
    }
}

/// A request to prepare an edge is valid exactly if its position lies on a part of
/// the edge that is not empty, in millionths of the edge, and its token is a positive
/// number below two to the 53rd.
pub proof fn positions_lie_on_their_part(request: DesktopRequest)
    requires
        request is Prepare,
    ensures
        request.valid() <==> (1 <= request->Prepare_token < 0x20_0000_0000_0000
            && request->Prepare_start < request->Prepare_end && request->Prepare_end <= 1_000_000
            && request->Prepare_start <= request->Prepare_position <= request->Prepare_end),
{
}

/// Every other request needs a proper token, if it has one.
pub proof fn requests_name_a_proper_token(token: u64)
    ensures
        DesktopRequest::Snapshot.valid(),
        (DesktopRequest::Poll { token }).valid() <==> 1 <= token < 0x20_0000_0000_0000,
        (DesktopRequest::Finish { token }).valid() <==> 1 <= token < 0x20_0000_0000_0000,
{
}

} // verus!
