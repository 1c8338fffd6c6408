//! The data model: queries, legs, schedules, connections, routes, journeys,
//! and the error taxonomy, together with their mathematical views.
//!
//! Timestamps are epoch seconds (`i64`); every identifier and designation is
//! a sequence of characters.

use vstd::prelude::*;

verus! {

// ---------------------------------------------------------------------------
// Mathematical views
// ---------------------------------------------------------------------------

/// View of a parsed user query.
#[verifier::ext_equal]
pub ghost struct QueryView {
    pub arrival_stop: Seq<char>,
    pub departure_stop: Seq<char>,
    pub query_time: int,
    pub user_agent: Seq<char>,
    pub query_type: Seq<char>,
}

/// View of one leg of an abstract journey option.
#[verifier::ext_equal]
pub ghost struct LegView {
    pub trip: Seq<char>,
    pub departure_stop: Seq<char>,
    pub arrival_stop: Seq<char>,
}

/// View of one abstract journey option: an ordered list of legs.
#[verifier::ext_equal]
pub ghost struct JourneyOptionView {
    pub legs: Seq<LegView>,
}

/// View of one stop event of a vehicle's schedule.
#[verifier::ext_equal]
pub ghost struct StopEventView {
    pub station: Seq<char>,
    pub scheduled_arrival: int,
    pub scheduled_departure: int,
}

/// View of a vehicle's full ordered stop schedule.
#[verifier::ext_equal]
pub ghost struct VehicleScheduleView {
    pub vehicle: Seq<char>,
    pub stops: Seq<StopEventView>,
}

/// View of one physically travelled segment.
#[verifier::ext_equal]
pub ghost struct ConnectionView {
    pub departure_time: int,
    pub arrival_time: int,
    pub arrival_stop: Seq<char>,
    pub departure_stop: Seq<char>,
    pub vehicle: Seq<char>,
}

/// View of a reconstructed route.
#[verifier::ext_equal]
pub ghost struct RouteView {
    pub connections: Seq<ConnectionView>,
    pub transfers: int,
}

/// View of a reconstructed journey.
#[verifier::ext_equal]
pub ghost struct JourneyView {
    pub query: QueryView,
    pub routes: Seq<RouteView>,
}

/// View of one leg of a raw journey option, as found on the log line.
/// A field is `None` when the log line lacks it or gives it a non-string
/// value.
#[verifier::ext_equal]
pub ghost struct RawLegView {
    pub trip: Option<Seq<char>>,
    pub departure_stop: Option<Seq<char>>,
    pub arrival_stop: Option<Seq<char>>,
}

/// View of one raw journey option.
#[verifier::ext_equal]
pub ghost struct RawOptionView {
    pub legs: Seq<RawLegView>,
}

/// View of a raw log record.
#[verifier::ext_equal]
pub ghost struct LogRecordView {
    pub query_type: Option<Seq<char>>,
    pub query_time: Option<Seq<char>>,
    pub user_agent: Option<Seq<char>>,
    pub departure_stop: Option<Seq<char>>,
    pub arrival_stop: Option<Seq<char>>,
    pub options: Seq<RawOptionView>,
}

// ---------------------------------------------------------------------------
// Views of vectors
// ---------------------------------------------------------------------------

/// The views of a vector of legs.
pub open spec fn legs_view(s: Seq<Leg>) -> Seq<LegView> {
    Seq::new(s.len(), |i: int| s[i]@)
}

/// The views of a vector of stop events.
pub open spec fn stops_view(s: Seq<StopEvent>) -> Seq<StopEventView> {
    Seq::new(s.len(), |i: int| s[i]@)
}

/// The views of a vector of connections.
pub open spec fn connections_view(s: Seq<Connection>) -> Seq<ConnectionView> {
    Seq::new(s.len(), |i: int| s[i]@)
}

/// The views of a vector of routes.
pub open spec fn routes_view(s: Seq<Route>) -> Seq<RouteView> {
    Seq::new(s.len(), |i: int| s[i]@)
}

/// The views of a vector of journey options.
pub open spec fn options_view(s: Seq<JourneyOption>) -> Seq<JourneyOptionView> {
    Seq::new(s.len(), |i: int| s[i]@)
}

/// The views of a vector of raw legs.
pub open spec fn raw_legs_view(s: Seq<RawLeg>) -> Seq<RawLegView> {
    Seq::new(s.len(), |i: int| s[i]@)
}

/// The views of a vector of raw journey options.
pub open spec fn raw_options_view(s: Seq<RawOption>) -> Seq<RawOptionView> {
    Seq::new(s.len(), |i: int| s[i]@)
}

// ---------------------------------------------------------------------------
// Executable types
// ---------------------------------------------------------------------------

/// The user's original request, parsed from a log line.
#[derive(Debug, Clone)]
pub struct Query {
    pub arrival_stop: Vec<char>,
    pub departure_stop: Vec<char>,
    pub query_time: i64,
    pub user_agent: Vec<char>,
    pub query_type: Vec<char>,
}

impl View for Query {
    type V = QueryView;

    open spec fn view(&self) -> QueryView {
        QueryView {
            arrival_stop: self.arrival_stop@,
            departure_stop: self.departure_stop@,
            query_time: self.query_time as int,
            user_agent: self.user_agent@,
            query_type: self.query_type@,
        }
    }
}

/// One leg of an abstract journey option: a trip and its boundary stops.
#[derive(Debug, Clone)]
pub struct Leg {
    pub trip: Vec<char>,
    pub departure_stop: Vec<char>,
    pub arrival_stop: Vec<char>,
}

impl View for Leg {
    type V = LegView;

    open spec fn view(&self) -> LegView {
        LegView {
            trip: self.trip@,
            departure_stop: self.departure_stop@,
            arrival_stop: self.arrival_stop@,
        }
    }
}

/// One abstract journey option returned to the user.
#[derive(Debug, Clone)]
pub struct JourneyOption {
    pub legs: Vec<Leg>,
}

impl View for JourneyOption {
    type V = JourneyOptionView;

    open spec fn view(&self) -> JourneyOptionView {
        JourneyOptionView { legs: legs_view(self.legs@) }
    }
}

/// One stop event of a vehicle's schedule.
#[derive(Debug, Clone)]
pub struct StopEvent {
    pub station: Vec<char>,
    pub scheduled_arrival: i64,
    pub scheduled_departure: i64,
}

impl View for StopEvent {
    type V = StopEventView;

    open spec fn view(&self) -> StopEventView {
        StopEventView {
            station: self.station@,
            scheduled_arrival: self.scheduled_arrival as int,
            scheduled_departure: self.scheduled_departure as int,
        }
    }
}

/// A vehicle's designation and full ordered stop schedule.
#[derive(Debug, Clone)]
pub struct VehicleSchedule {
    pub vehicle: Vec<char>,
    pub stops: Vec<StopEvent>,
}

impl View for VehicleSchedule {
    type V = VehicleScheduleView;

    open spec fn view(&self) -> VehicleScheduleView {
        VehicleScheduleView { vehicle: self.vehicle@, stops: stops_view(self.stops@) }
    }
}

/// One physically travelled segment of a route.
#[derive(Debug, Clone)]
pub struct Connection {
    pub departure_time: i64,
    pub arrival_time: i64,
    pub arrival_stop: Vec<char>,
    pub departure_stop: Vec<char>,
    pub vehicle: Vec<char>,
}

impl View for Connection {
    type V = ConnectionView;

    open spec fn view(&self) -> ConnectionView {
        ConnectionView {
            departure_time: self.departure_time as int,
            arrival_time: self.arrival_time as int,
            arrival_stop: self.arrival_stop@,
            departure_stop: self.departure_stop@,
            vehicle: self.vehicle@,
        }
    }
}

/// A reconstructed route: its connections, in travel order, and the number
/// of transfers.
#[derive(Debug, Clone)]
pub struct Route {
    pub connections: Vec<Connection>,
    pub transfers: u32,
}

impl View for Route {
    type V = RouteView;

    open spec fn view(&self) -> RouteView {
        RouteView { connections: connections_view(self.connections@), transfers: self.transfers as int }
    }
}

impl Route {
    /// The stop where travel on this route begins.
    pub fn departure_stop(&self) -> (r: &Vec<char>)
        requires
            self@.connections.len() > 0,
        ensures
            r@ == self@.connections.first().departure_stop,
    {
        &self.connections[0].departure_stop
    }

    /// The stop where travel on this route ends.
    pub fn arrival_stop(&self) -> (r: &Vec<char>)
        requires
            self@.connections.len() > 0,
        ensures
            r@ == self@.connections.last().arrival_stop,
    {
        &self.connections[self.connections.len() - 1].arrival_stop
    }

    /// The scheduled departure time of the first connection.
    pub fn departure_time(&self) -> (r: i64)
        requires
            self@.connections.len() > 0,
        ensures
            r as int == self@.connections.first().departure_time,
    {
        self.connections[0].departure_time
    }

    /// The scheduled arrival time of the last connection.
    pub fn arrival_time(&self) -> (r: i64)
        requires
            self@.connections.len() > 0,
        ensures
            r as int == self@.connections.last().arrival_time,
    {
        self.connections[self.connections.len() - 1].arrival_time
    }

    /// How many connections the route holds.
    pub fn number_of_connections(&self) -> (r: usize)
        ensures
            r == self@.connections.len(),
    {
        self.connections.len()
    }

    /// How many transfers the route needs.
    pub fn number_of_transfers(&self) -> (r: usize)
        ensures
            r as int == self@.transfers,
    {
        self.transfers as usize
    }

    /// The connections of the route, in travel order.
    pub fn connection(&self) -> (r: &Vec<Connection>)
        ensures
            r@.len() == self@.connections.len(),
            forall|i: int| 0 <= i < r@.len() ==> r@[i]@ == self@.connections[i],
    {
        &self.connections
    }
}

/// A fully reconstructed journey: the query and one route per journey option.
#[derive(Debug, Clone)]
pub struct Journey {
    pub query: Query,
    pub routes: Vec<Route>,
}

impl View for Journey {
    type V = JourneyView;

    open spec fn view(&self) -> JourneyView {
        JourneyView { query: self.query@, routes: routes_view(self.routes@) }
    }
}

/// One leg of a raw journey option, exactly as found on the log line.
#[derive(Debug, Clone)]
pub struct RawLeg {
    pub trip: Option<Vec<char>>,
    pub departure_stop: Option<Vec<char>>,
    pub arrival_stop: Option<Vec<char>>,
}

impl View for RawLeg {
    type V = RawLegView;

    open spec fn view(&self) -> RawLegView {
        RawLegView {
            trip: match self.trip {
                Some(t) => Some(t@),
                None => None,
            },
            departure_stop: match self.departure_stop {
                Some(t) => Some(t@),
                None => None,
            },
            arrival_stop: match self.arrival_stop {
                Some(t) => Some(t@),
                None => None,
            },
        }
    }
}

/// One raw journey option from the log line.
#[derive(Debug, Clone)]
pub struct RawOption {
    pub legs: Vec<RawLeg>,
}

impl View for RawOption {
    type V = RawOptionView;

    open spec fn view(&self) -> RawOptionView {
        RawOptionView { legs: raw_legs_view(self.legs@) }
    }
}

/// A raw log record: the query fields as the log line carries them, plus the
/// raw journey options.
#[derive(Debug, Clone)]
pub struct LogRecord {
    pub query_type: Option<Vec<char>>,
    pub query_time: Option<Vec<char>>,
    pub user_agent: Option<Vec<char>>,
    pub departure_stop: Option<Vec<char>>,
    pub arrival_stop: Option<Vec<char>>,
    pub options: Vec<RawOption>,
}

impl View for LogRecord {
    type V = LogRecordView;

    open spec fn view(&self) -> LogRecordView {
        LogRecordView {
            query_type: match self.query_type {
                Some(t) => Some(t@),
                None => None,
            },
            query_time: match self.query_time {
                Some(t) => Some(t@),
                None => None,
            },
            user_agent: match self.user_agent {
                Some(t) => Some(t@),
                None => None,
            },
            departure_stop: match self.departure_stop {
                Some(t) => Some(t@),
                None => None,
            },
            arrival_stop: match self.arrival_stop {
                Some(t) => Some(t@),
                None => None,
            },
            options: raw_options_view(self.options@),
        }
    }
}

// ---------------------------------------------------------------------------
// Errors
// ---------------------------------------------------------------------------

/// Failure of parsing one raw log line.
#[derive(Debug, Clone, Copy, PartialEq, Eq, Structural)]
pub enum ParseError {
    /// The line is not well-formed JSON.
    InvalidJson,
}

/// Failure at the vehicle-lookup boundary, for one leg.
#[derive(Debug, Clone, Copy, PartialEq, Eq, Structural)]
pub enum FetchError {
    /// The remote service answered with a non-success status.
    UpstreamUnavailable,
    /// The response could not be parsed into the expected shape.
    MalformedResponse,
}

/// Failure of reconstructing one journey.
#[derive(Debug, Clone, Copy, PartialEq, Eq, Structural)]
pub enum ReconstructionError {
    /// A vehicle fetch failed; the whole journey is abandoned.
    IncompleteVehicleData,
    /// The record lacks a required field, or its query timestamp does not
    /// parse.
    MalformedQuery,
}

} // verus!
