use vstd::prelude::*;

verus! {

/// Hours-of-day window during which a node may be serviced.
///
/// Either bound may be absent, leaving that side of the window
/// unrestricted; both absent means the node is open all day.
/// Whether a present start exceeds a present end is deliberately not
/// validated: such a window simply contains no timestamp.
#[derive(Debug, Clone)]
pub struct TimeWindow {
    /// Start of the window in hours, `None` if open from midnight.
    pub start: Option<u32>,
    /// End of the window in hours, `None` if open until midnight.
    pub end: Option<u32>,
}

/// Rejected `TimeWindow` bounds: an hour beyond 24.
#[derive(Debug, Clone, Copy, PartialEq, Eq, Structural)]
pub enum TimeWindowError {
    InvalidStartTime(u32),
    InvalidEndTime(u32),
}

impl TimeWindow {
    /// Each bound, when present, is an hour within `[0, 24]`.
    pub open spec fn wf(self) -> bool {
        &&& (self.start matches Some(s) ==> s <= 24)
        &&& (self.end matches Some(e) ==> e <= 24)
    }

    /// Whether `timestamp` (in hours) lies inside the window; present
    /// bounds are inclusive, absent bounds unrestricted.
    pub open spec fn spec_contains(self, timestamp: u32) -> bool {
        &&& (self.start matches Some(s) ==> timestamp >= s)
        &&& (self.end matches Some(e) ==> timestamp <= e)
    }

    /// Builds a window after validating both bounds; an out-of-range
    /// start is reported before an out-of-range end.
    pub fn new(start: Option<u32>, end: Option<u32>) -> (r: Result<Self, TimeWindowError>)
        ensures
            (r is Ok) <==> ((start matches Some(s) ==> s <= 24) && (end matches Some(e) ==> e <= 24)),
            r matches Ok(tw) ==> tw.start == start && tw.end == end && tw.wf(),
            (start matches Some(s) && s > 24) ==> r == Err::<TimeWindow, TimeWindowError>(
                TimeWindowError::InvalidStartTime(start->Some_0),
            ),
            ((start matches Some(s) ==> s <= 24) && (end matches Some(e) && e > 24)) ==> r
                == Err::<TimeWindow, TimeWindowError>(TimeWindowError::InvalidEndTime(end->Some_0)),
    {
        if let Some(s) = start {
            if s > 24 {
                return Err(TimeWindowError::InvalidStartTime(s));
            }
        }
        if let Some(e) = end {
            if e > 24 {
                return Err(TimeWindowError::InvalidEndTime(e));
            }
        }
        Ok(TimeWindow { start, end })
    }

    /// Checks whether a timestamp (in hours) is within the window,
    /// treating each bound as inclusive when present.
    pub fn contains(&self, timestamp: u32) -> (r: bool)
        ensures
            r == self.spec_contains(timestamp),
    {
        match (self.start, self.end) {
            (Some(start), Some(end)) => timestamp >= start && timestamp <= end,
            (Some(start), None) => timestamp >= start,
            (None, Some(end)) => timestamp <= end,
            (None, None) => true,
        }
    }
}

/// Geographic position in millionths of a degree, so that catalogue
/// data stays exact integer data; callers convert from degrees.
#[derive(Debug, Clone, Copy, PartialEq, Eq, Structural)]
pub struct Location {
    /// Latitude in millionths of a degree.
    pub latitude: i64,
    /// Longitude in millionths of a degree.
    pub longitude: i64,
}

impl Location {
    pub fn new(latitude: i64, longitude: i64) -> (r: Self)
        ensures
            r.latitude == latitude,
            r.longitude == longitude,
    {
        Location { latitude, longitude }
    }
}

/// Shared shape underlying `Installation` and `Base`.
#[derive(Debug, Clone)]
pub struct Node {
    pub id: u32,
    pub name: String,
    pub location: Location,
    /// Service time in seconds.
    pub service_time: u64,
    /// Time window for visiting the node.
    pub time_window: TimeWindow,
}

impl Node {
    pub fn new(
        id: u32,
        name: String,
        location: Location,
        service_time: u64,
        time_window: TimeWindow,
    ) -> (r: Self)
        ensures
            r.id == id,
            r.name == name,
            r.location == location,
            r.service_time == service_time,
            r.time_window == time_window,
    {
        Node { id, name, location, service_time, time_window }
    }
}

/// Static catalogue record for an offshore installation.
#[derive(Debug, Clone)]
pub struct Installation {
    pub node: Node,
    /// Deck demand of the installation, in deck-cargo units.
    pub demand: u32,
    /// Number of visits required in the planning period.
    pub visit_frequency: u32,
    /// Category label, e.g. a rig or a platform.
    pub installation_type: String,
    /// Allowed spread of departure times, in hours.
    pub departure_spread: u32,
}

impl Installation {
    pub fn new(
        id: u32,
        name: String,
        location: Location,
        service_time: u64,
        time_window: TimeWindow,
        demand: u32,
        visit_frequency: u32,
        installation_type: String,
        departure_spread: u32,
    ) -> (r: Self)
        ensures
            r.node.id == id,
            r.node.name == name,
            r.node.location == location,
            r.node.service_time == service_time,
            r.node.time_window == time_window,
            r.demand == demand,
            r.visit_frequency == visit_frequency,
            r.installation_type == installation_type,
            r.departure_spread == departure_spread,
    {
        Installation {
            node: Node::new(id, name, location, service_time, time_window),
            demand,
            visit_frequency,
            installation_type,
            departure_spread,
        }
    }
}

/// The fixed base every voyage starts from and returns to; exactly one
/// per problem instance.
#[derive(Debug, Clone)]
pub struct Base {
    pub node: Node,
}

impl Base {
    pub fn new(
        idx: u32,
        name: String,
        location: Location,
        service_time: u64,
        time_window: TimeWindow,
    ) -> (r: Self)
        ensures
            r.node.id == idx,
            r.node.name == name,
            r.node.location == location,
            r.node.service_time == service_time,
            r.node.time_window == time_window,
    {
        Base { node: Node::new(idx, name, location, service_time, time_window) }
    }
}

} // verus!
