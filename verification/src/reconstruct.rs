//! The journey reconstructor.
//!
//! One journey option is a chain of legs.  For each leg the vehicle's full
//! stop schedule is scanned with a small state machine: the traveller is
//! seeking until the leg's declared departure stop appears, boards there,
//! and alights when the declared arrival stop appears, which yields exactly
//! one connection spanning boarding point to alighting point.  A vehicle
//! that never passes the departure stop, or never reaches the arrival stop
//! afterwards, contributes no connection and no error.  Fetch failures
//! abort the whole journey.

use vstd::prelude::*;
use crate::model::{Leg, LegView, JourneyOption, JourneyOptionView, StopEventView, VehicleSchedule,
    VehicleScheduleView, Connection, ConnectionView, Route, RouteView, Journey, JourneyView,
    Query, QueryView, LogRecord, LogRecordView, RawLegView, FetchError, ReconstructionError};
use crate::model::{connections_view, options_view};
use crate::text::{str_chars, chars_eq, chars_copy, chars_to_string};
use crate::timefmt::rfc3339_epoch;

verus! {

// ---------------------------------------------------------------------------
// Vehicle references
// ---------------------------------------------------------------------------

/// The designation prefix that is dropped from vehicle names.
pub open spec fn trip_prefix() -> Seq<char> {
    seq!['B', 'E', '.', 'N', 'M', 'B', 'S', '.']
}

/// The designation with every occurrence of the prefix removed, scanning
/// left to right.
pub open spec fn strip_refs(s: Seq<char>) -> Seq<char>
    decreases s.len(),
{
    if s.len() == 0 {
        Seq::empty()
    } else if s.len() >= 8 && s.take(8) == trip_prefix() {
        strip_refs(s.skip(8))
    } else {
        seq![s[0]] + strip_refs(s.skip(1))
    }
}

/// The URI a connection carries for its vehicle.
pub open spec fn vehicle_ref(d: Seq<char>) -> Seq<char> {
    "http://irail.be/vehicle/"@ + strip_refs(d)
}

fn trip_prefix_vec() -> (p: Vec<char>)
    ensures
        p@ == trip_prefix(),
{
    let mut p: Vec<char> = Vec::new();
    p.push('B');
    p.push('E');
    p.push('.');
    p.push('N');
    p.push('M');
    p.push('B');
    p.push('S');
    p.push('.');
    proof {
        assert(p@ =~= trip_prefix());
    }
    p
}

/// The vehicle URI for a designation.
#[verifier::loop_isolation(false)]
pub fn make_vehicle_ref(d: &Vec<char>) -> (r: Vec<char>)
    ensures
        r@ == vehicle_ref(d@),
{
    let pat = trip_prefix_vec();
    let mut out = str_chars("http://irail.be/vehicle/");
    proof {
        assert(d@.skip(0) =~= d@);
    }
    let mut i: usize = 0;
    while i < d.len()
        invariant
            i <= d@.len(),
            "http://irail.be/vehicle/"@ + strip_refs(d@) == out@ + strip_refs(d@.skip(i as int)),
        decreases d@.len() - i,
    {
        let ghost before = out@;
        let mut matches_here = d.len() - i >= 8;
        if matches_here {
            let mut k: usize = 0;
            while k < 8
                invariant
                    k <= 8,
                    i + 8 <= d@.len(),
                    pat@ == trip_prefix(),
                    matches_here == forall|m: int| 0 <= m < k ==> d@[i + m] == trip_prefix()[m],
                decreases 8 - k,
            {
                if d[i + k] != pat[k] {
                    matches_here = false;
                    proof {
                        assert(!(forall|m: int|
                            0 <= m < k + 1 ==> d@[i + m] == trip_prefix()[m])) by {
                            assert(d@[i + k as int] != trip_prefix()[k as int]);
                        }
                    }
                    k = 8;
                } else {
                    k = k + 1;
                }
            }
        }
        if matches_here {
            proof {
                assert(d@.skip(i as int).take(8) =~= trip_prefix());
                assert(d@.skip(i as int).skip(8) =~= d@.skip(i as int + 8));
            }
            i = i + 8;
        } else {
            proof {
                if d@.len() - i >= 8 {
                    let m = choose|m: int|
                        0 <= m < 8 && d@[i + m] != trip_prefix()[m];
                    assert(d@.skip(i as int).take(8)[m] == d@[i + m]);
                    assert(d@.skip(i as int).take(8) != trip_prefix());
                }
            }
            out.push(d[i]);
            proof {
                assert(out@ =~= before + seq![d@[i as int]]);
                assert(strip_refs(d@.skip(i as int)) == seq![d@[i as int]] + strip_refs(
                    d@.skip(i as int + 1),
                )) by {
                    assert(d@.skip(i as int)[0] == d@[i as int]);
                    assert(d@.skip(i as int).skip(1) =~= d@.skip(i as int + 1));
                }
                assert(before + (seq![d@[i as int]] + strip_refs(d@.skip(i as int + 1))) =~= out@
                    + strip_refs(d@.skip(i as int + 1)));
            }
            i = i + 1;
        }
    }
    proof {
        assert(d@.skip(d@.len() as int) =~= Seq::<char>::empty());
        assert(out@ + Seq::<char>::empty() =~= out@);
    }
    out
}

// ---------------------------------------------------------------------------
// Scanning one leg
// ---------------------------------------------------------------------------

/// The scan state machine over a vehicle's stop events, from position `i`,
/// with `cursor` holding the boarding stop and its scheduled departure once
/// the traveller has boarded.  The arrival check comes first, so a leg whose
/// declared departure and arrival coincide yields no connection.
pub open spec fn scan_from(
    leg: LegView,
    stops: Seq<StopEventView>,
    veh: Seq<char>,
    i: int,
    cursor: Option<(Seq<char>, int)>,
) -> Option<ConnectionView>
    decreases stops.len() - i,
{
    if i < 0 || i >= stops.len() {
        None
    } else {
        let ev = stops[i];
        if ev.station == leg.arrival_stop {
            match cursor {
                Some(cur) => Some(
                    ConnectionView {
                        departure_time: cur.1,
                        arrival_time: ev.scheduled_arrival,
                        arrival_stop: ev.station,
                        departure_stop: cur.0,
                        vehicle: veh,
                    },
                ),
                None => None,
            }
        } else if ev.station == leg.departure_stop {
            scan_from(leg, stops, veh, i + 1, Some((ev.station, ev.scheduled_departure)))
        } else {
            scan_from(leg, stops, veh, i + 1, cursor)
        }
    }
}

/// The connection one leg contributes, if any.
pub open spec fn scan_leg_spec(leg: LegView, sched: VehicleScheduleView) -> Option<
    ConnectionView,
> {
    scan_from(leg, sched.stops, vehicle_ref(sched.vehicle), 0, None)
}

/// Scan one vehicle schedule for one leg.
#[verifier::loop_isolation(false)]
pub fn scan_leg(leg: &Leg, sched: &VehicleSchedule) -> (r: Option<Connection>)
    ensures
        match r {
            Some(c) => scan_leg_spec(leg@, sched@) == Some(c@),
            None => scan_leg_spec(leg@, sched@) is None,
        },
{
    let veh = make_vehicle_ref(&sched.vehicle);
    let mut boarded = false;
    let mut cursor_stop: Vec<char> = Vec::new();
    let mut cursor_time: i64 = 0;
    let ghost target = scan_leg_spec(leg@, sched@);
    let mut i: usize = 0;
    while i < sched.stops.len()
        invariant
            i <= sched@.stops.len(),
            veh@ == vehicle_ref(sched@.vehicle),
            target == scan_from(
                leg@,
                sched@.stops,
                veh@,
                i as int,
                if boarded {
                    Some((cursor_stop@, cursor_time as int))
                } else {
                    None
                },
            ),
        decreases sched@.stops.len() - i,
    {
        let ev = &sched.stops[i];
        proof {
            assert(sched@.stops[i as int] == sched.stops@[i as int]@);
        }
        if chars_eq(&ev.station, &leg.arrival_stop) {
            if boarded {
                let c = Connection {
                    departure_time: cursor_time,
                    arrival_time: ev.scheduled_arrival,
                    arrival_stop: chars_copy(&ev.station),
                    departure_stop: cursor_stop,
                    vehicle: veh,
                };
                proof {
                    assert(target == Some(c@));
                }
                return Some(c);
            } else {
                return None;
            }
        } else if chars_eq(&ev.station, &leg.departure_stop) {
            boarded = true;
            cursor_stop = chars_copy(&ev.station);
            cursor_time = ev.scheduled_departure;
        }
        i = i + 1;
    }
    None
}

// ---------------------------------------------------------------------------
// Routes and journeys
// ---------------------------------------------------------------------------

/// The connections a scan outcome contributes: one, or none.
pub open spec fn opt_conn(c: Option<ConnectionView>) -> Seq<ConnectionView> {
    match c {
        Some(c) => seq![c],
        None => Seq::empty(),
    }
}

/// The connections of the first `n` legs of an option, in leg order.
pub open spec fn conns_upto(
    legs: Seq<LegView>,
    scheds: Seq<VehicleScheduleView>,
    n: int,
) -> Seq<ConnectionView>
    decreases n,
{
    if n <= 0 {
        Seq::empty()
    } else {
        conns_upto(legs, scheds, n - 1) + opt_conn(scan_leg_spec(legs[n - 1], scheds[n - 1]))
    }
}

/// The route one journey option reconstructs to, given the vehicle
/// schedules of its legs.  The transfer count is one less than the number
/// of legs: one transfer for each additional vehicle boarded.
pub open spec fn route_spec(legs: Seq<LegView>, scheds: Seq<VehicleScheduleView>) -> RouteView {
    RouteView {
        connections: conns_upto(legs, scheds, legs.len() as int),
        transfers: if legs.len() == 0 {
            0
        } else {
            legs.len() - 1
        },
    }
}

/// Whether the fetched rows line up with the options, row by row.
pub open spec fn fetch_shape_ok(
    options: Seq<JourneyOptionView>,
    fetched: Seq<Vec<Result<VehicleSchedule, FetchError>>>,
) -> bool {
    fetched.len() == options.len() && forall|i: int|
        0 <= i < options.len() ==> (#[trigger] fetched[i])@.len() == options[i].legs.len()
}

/// Whether any vehicle fetch failed.
pub open spec fn any_fetch_err(fetched: Seq<Vec<Result<VehicleSchedule, FetchError>>>) -> bool {
    exists|i: int, j: int|
        0 <= i < fetched.len() && 0 <= j < fetched[i]@.len() && (#[trigger] fetched[i]@[j]) is Err
}

/// The schedules of one row of successful fetches.
pub open spec fn ok_scheds(row: Seq<Result<VehicleSchedule, FetchError>>) -> Seq<
    VehicleScheduleView,
> {
    Seq::new(row.len(), |j: int| row[j]->Ok_0@)
}

/// The routes of a journey, option by option.
pub open spec fn journey_routes(
    options: Seq<JourneyOptionView>,
    fetched: Seq<Vec<Result<VehicleSchedule, FetchError>>>,
) -> Seq<RouteView> {
    Seq::new(options.len(), |i: int| route_spec(options[i].legs, ok_scheds(fetched[i]@)))
}

/// Assemble a journey from a query, its options, and the fetch outcome of
/// every leg.  Any failed fetch makes the vehicle data incomplete and
/// abandons the whole journey; otherwise one route is built per option.
#[verifier::loop_isolation(false)]
pub fn assemble(
    query: Query,
    options: &Vec<JourneyOption>,
    fetched: &Vec<Vec<Result<VehicleSchedule, FetchError>>>,
) -> (r: Result<Journey, ReconstructionError>)
    requires
        fetch_shape_ok(options_view(options@), fetched@),
        forall|i: int|
            0 <= i < options@.len() ==> (#[trigger] options@[i])@.legs.len() <= u32::MAX,
    ensures
        r is Err <==> any_fetch_err(fetched@),
        r matches Err(e) ==> e == ReconstructionError::IncompleteVehicleData,
        r matches Ok(j) ==> j@.query == query@ && j@.routes == journey_routes(
            options_view(options@),
            fetched@,
        ) && j@.routes.len() == options@.len(),
{
    let ghost qv = query@;
    let mut routes: Vec<Route> = Vec::new();
    let mut i: usize = 0;
    while i < options.len()
        invariant
            i <= options@.len(),
            routes@.len() == i,
            forall|k: int|
                0 <= k < i ==> #[trigger] routes@[k]@ == journey_routes(
                    options_view(options@),
                    fetched@,
                )[k],
            forall|k: int, l: int|
                0 <= k < i && 0 <= l < fetched@[k]@.len() ==> !((#[trigger] fetched@[k]@[l])
                    is Err),
        decreases options@.len() - i,
    {
        let opt = &options[i];
        let row = &fetched[i];
        let ghost legsv = options_view(options@)[i as int].legs;
        let ghost schedv = ok_scheds(row@);
        let mut conns: Vec<Connection> = Vec::new();
        let mut j: usize = 0;
        while j < opt.legs.len()
            invariant
                j <= opt@.legs.len(),
                legsv == options_view(options@)[i as int].legs,
                legsv.len() == opt@.legs.len(),
                i < options@.len(),
                opt == &options[i as int],
                row == &fetched[i as int],
                row@.len() == opt@.legs.len(),
                schedv == ok_scheds(row@),
                connections_view(conns@) == conns_upto(legsv, schedv, j as int),
                forall|l: int| 0 <= l < j ==> !((#[trigger] row@[l]) is Err),
            decreases opt@.legs.len() - j,
        {
            let ghost conns0 = conns@;
            match &row[j] {
                Result::Err(_) => {
                    proof {
                        assert(any_fetch_err(fetched@)) by {
                            assert(0 <= i < fetched@.len() && 0 <= j < fetched@[i as int]@.len()
                                && fetched@[i as int]@[j as int] is Err);
                        }
                    }
                    return Err(ReconstructionError::IncompleteVehicleData);
                },
                Result::Ok(s) => {
                    proof {
                        assert(schedv[j as int] == s@);
                        assert(legsv[j as int] == opt.legs@[j as int]@);
                    }
                    match scan_leg(&opt.legs[j], s) {
                        Some(c) => {
                            conns.push(c);
                            proof {
                                assert(connections_view(conns@) =~= connections_view(conns0)
                                    + opt_conn(scan_leg_spec(legsv[j as int], schedv[j as int])));
                            }
                        },
                        None => {
                            proof {
                                assert(connections_view(conns@) =~= connections_view(conns0)
                                    + opt_conn(scan_leg_spec(legsv[j as int], schedv[j as int])));
                            }
                        },
                    }
                },
            }
            j = j + 1;
        }
        let transfers: u32 = if opt.legs.len() == 0 {
            0
        } else {
            (opt.legs.len() - 1) as u32
        };
        let route = Route { connections: conns, transfers };
        proof {
            assert(route@ =~= journey_routes(options_view(options@), fetched@)[i as int]);
        }
        routes.push(route);
        i = i + 1;
    }
    let journey = Journey { query, routes };
    proof {
        assert(!any_fetch_err(fetched@));
        assert(journey@.routes =~= journey_routes(options_view(options@), fetched@));
    }
    Ok(journey)
}

// ---------------------------------------------------------------------------
// Preparing a record
// ---------------------------------------------------------------------------

/// Whether one raw leg carries all of its required fields.
pub open spec fn leg_complete(l: RawLegView) -> bool {
    l.trip is Some && l.departure_stop is Some && l.arrival_stop is Some
}

/// Whether a record carries every required field.
pub open spec fn record_complete(r: LogRecordView) -> bool {
    &&& r.query_type is Some
    &&& r.query_time is Some
    &&& r.user_agent is Some
    &&& r.departure_stop is Some
    &&& r.arrival_stop is Some
    &&& forall|i: int, j: int|
        0 <= i < r.options.len() && 0 <= j < (#[trigger] r.options[i]).legs.len()
            ==> leg_complete(#[trigger] r.options[i].legs[j])
}

/// Whether a record can be reconstructed at all: complete, with a query
/// timestamp that parses as RFC 3339.
pub open spec fn prepare_ok(r: LogRecordView) -> bool {
    record_complete(r) && rfc3339_epoch(r.query_time->0) is Some
}

/// The typed query of a complete record.
pub open spec fn query_of_record(r: LogRecordView) -> QueryView {
    QueryView {
        arrival_stop: r.arrival_stop->0,
        departure_stop: r.departure_stop->0,
        query_time: rfc3339_epoch(r.query_time->0)->0 as int,
        user_agent: r.user_agent->0,
        query_type: r.query_type->0,
    }
}

/// A raw leg with its fields unwrapped.
pub open spec fn clean_leg(l: RawLegView) -> LegView {
    LegView {
        trip: l.trip->0,
        departure_stop: l.departure_stop->0,
        arrival_stop: l.arrival_stop->0,
    }
}

/// The typed journey options of a complete record.
pub open spec fn clean_options(r: LogRecordView) -> Seq<JourneyOptionView> {
    Seq::new(
        r.options.len(),
        |i: int|
            JourneyOptionView {
                legs: Seq::new(
                    r.options[i].legs.len(),
                    |j: int| clean_leg(r.options[i].legs[j]),
                ),
            },
    )
}

/// Check a record and parse its query timestamp.  A record that lacks a
/// required field, or whose timestamp is not RFC 3339, is a malformed query.
#[verifier::loop_isolation(false)]
pub fn prepare(record: &LogRecord) -> (r: Result<(Query, Vec<JourneyOption>), ReconstructionError>)
    ensures
        r is Ok <==> prepare_ok(record@),
        r matches Ok(p) ==> p.0@ == query_of_record(record@) && options_view(p.1@)
            == clean_options(record@),
        r matches Err(e) ==> e == ReconstructionError::MalformedQuery,
{
    let qt = match &record.query_time {
        Some(t) => t,
        None => {
            return Err(ReconstructionError::MalformedQuery);
        },
    };
    let qty = match &record.query_type {
        Some(t) => t,
        None => {
            return Err(ReconstructionError::MalformedQuery);
        },
    };
    let ua = match &record.user_agent {
        Some(t) => t,
        None => {
            return Err(ReconstructionError::MalformedQuery);
        },
    };
    let dep = match &record.departure_stop {
        Some(t) => t,
        None => {
            return Err(ReconstructionError::MalformedQuery);
        },
    };
    let arr = match &record.arrival_stop {
        Some(t) => t,
        None => {
            return Err(ReconstructionError::MalformedQuery);
        },
    };
    let qt_string = chars_to_string(qt);
    let epoch = match crate::timefmt::parse_rfc3339(qt_string.as_str()) {
        Some(e) => e,
        None => {
            return Err(ReconstructionError::MalformedQuery);
        },
    };
    let mut options: Vec<JourneyOption> = Vec::new();
    let mut i: usize = 0;
    while i < record.options.len()
        invariant
            i <= record@.options.len(),
            options@.len() == i,
            forall|k: int, j: int|
                0 <= k < i && 0 <= j < (#[trigger] record@.options[k]).legs.len()
                    ==> leg_complete(#[trigger] record@.options[k].legs[j]),
            forall|k: int|
                0 <= k < i ==> #[trigger] options@[k]@ == clean_options(record@)[k],
        decreases record@.options.len() - i,
    {
        let raw = &record.options[i];
        let mut legs: Vec<Leg> = Vec::new();
        let mut j: usize = 0;
        while j < raw.legs.len()
            invariant
                j <= raw@.legs.len(),
                i < record@.options.len(),
                raw == &record.options[i as int],
                legs@.len() == j,
                forall|l: int|
                    0 <= l < j ==> leg_complete(#[trigger] raw@.legs[l]),
                forall|l: int|
                    0 <= l < j ==> #[trigger] legs@[l]@ == clean_leg(raw@.legs[l]),
            decreases raw@.legs.len() - j,
        {
            let rl = &raw.legs[j];
            proof {
                assert(rl@ == record@.options[i as int].legs[j as int]);
            }
            let trip = match &rl.trip {
                Some(t) => chars_copy(t),
                None => {
                    proof {
                        assert(!leg_complete(record@.options[i as int].legs[j as int]));
                        assert(!record_complete(record@));
                    }
                    return Err(ReconstructionError::MalformedQuery);
                },
            };
            let ldep = match &rl.departure_stop {
                Some(t) => chars_copy(t),
                None => {
                    proof {
                        assert(!leg_complete(record@.options[i as int].legs[j as int]));
                        assert(!record_complete(record@));
                    }
                    return Err(ReconstructionError::MalformedQuery);
                },
            };
            let larr = match &rl.arrival_stop {
                Some(t) => chars_copy(t),
                None => {
                    proof {
                        assert(!leg_complete(record@.options[i as int].legs[j as int]));
                        assert(!record_complete(record@));
                    }
                    return Err(ReconstructionError::MalformedQuery);
                },
            };
            legs.push(Leg { trip, departure_stop: ldep, arrival_stop: larr });
            j = j + 1;
        }
        let opt = JourneyOption { legs };
        proof {
            assert(opt@ =~= clean_options(record@)[i as int]);
        }
        options.push(opt);
        i = i + 1;
    }
    let query = Query {
        arrival_stop: chars_copy(arr),
        departure_stop: chars_copy(dep),
        query_time: epoch,
        user_agent: chars_copy(ua),
        query_type: chars_copy(qty),
    };
    proof {
        assert(query@ =~= query_of_record(record@));
        assert(options_view(options@) =~= clean_options(record@));
    }
    Ok((query, options))
}

/// Reconstruct one journey from a raw record and the fetch outcome of every
/// leg.  A malformed record is rejected first; then any failed fetch
/// abandons the journey; otherwise each option becomes one route.
pub fn reconstruct(
    record: &LogRecord,
    fetched: &Vec<Vec<Result<VehicleSchedule, FetchError>>>,
) -> (r: Result<Journey, ReconstructionError>)
    requires
        fetched@.len() == record@.options.len(),
        forall|i: int|
            0 <= i < record@.options.len() ==> (#[trigger] fetched@[i])@.len()
                == record@.options[i].legs.len(),
        forall|i: int|
            0 <= i < record@.options.len() ==> (#[trigger] record@.options[i]).legs.len()
                <= u32::MAX,
    ensures
        !prepare_ok(record@) ==> r == Err::<Journey, ReconstructionError>(
            ReconstructionError::MalformedQuery,
        ),
        prepare_ok(record@) && any_fetch_err(fetched@) ==> r == Err::<
            Journey,
            ReconstructionError,
        >(ReconstructionError::IncompleteVehicleData),
        prepare_ok(record@) && !any_fetch_err(fetched@) ==> (r matches Ok(j) && j@.query
            == query_of_record(record@) && j@.routes == journey_routes(
            clean_options(record@),
            fetched@,
        ) && j@.routes.len() == record@.options.len()),
{
    let (query, options) = match prepare(record) {
        Ok(p) => p,
        Err(e) => {
            return Err(e);
        },
    };
    proof {
        assert(options_view(options@) == clean_options(record@));
        assert forall|i: int| 0 <= i < options@.len() implies (#[trigger] options@[i])@.legs.len()
            <= u32::MAX by {
            assert(options@[i]@ == clean_options(record@)[i]);
            assert(clean_options(record@)[i].legs.len() == record@.options[i].legs.len());
        }
        assert forall|i: int| 0 <= i < options@.len() implies (#[trigger] fetched@[i])@.len()
            == options_view(options@)[i].legs.len() by {
            assert(options_view(options@)[i].legs.len() == record@.options[i].legs.len());
        }
    }
    let r = assemble(query, &options, fetched);
    r
}

// ---------------------------------------------------------------------------
// Laws of the scan
// ---------------------------------------------------------------------------

proof fn lemma_scan_emits(
    leg: LegView,
    stops: Seq<StopEventView>,
    veh: Seq<char>,
    k: int,
    i0: int,
    cursor: Option<(Seq<char>, int)>,
)
    requires
        0 <= i0 <= k,
        k + 1 < stops.len(),
        stops[k].station == leg.departure_stop,
        stops[k + 1].station == leg.arrival_stop,
        forall|i: int| 0 <= i <= k ==> (#[trigger] stops[i]).station != leg.arrival_stop,
    ensures
        scan_from(leg, stops, veh, i0, cursor) == Some(
            ConnectionView {
                departure_time: stops[k].scheduled_departure,
                arrival_time: stops[k + 1].scheduled_arrival,
                arrival_stop: leg.arrival_stop,
                departure_stop: leg.departure_stop,
                vehicle: veh,
            },
        ),
    decreases k - i0,
{
    if i0 == k {
        assert(scan_from(leg, stops, veh, k + 1, Some((stops[k].station, stops[k].scheduled_departure)))
            == Some(
            ConnectionView {
                departure_time: stops[k].scheduled_departure,
                arrival_time: stops[k + 1].scheduled_arrival,
                arrival_stop: stops[k + 1].station,
                departure_stop: stops[k].station,
                vehicle: veh,
            },
        ));
    } else {
        if stops[i0].station == leg.departure_stop {
            lemma_scan_emits(
                leg,
                stops,
                veh,
                k,
                i0 + 1,
                Some((stops[i0].station, stops[i0].scheduled_departure)),
            );
        } else {
            lemma_scan_emits(leg, stops, veh, k, i0 + 1, cursor);
        }
    }
}

/// A single-leg option whose vehicle stops at the declared departure stop
/// and, immediately after, at the declared arrival stop (with no earlier
/// occurrence of the arrival stop) reconstructs to exactly one connection,
/// spanning those two stop events, with no transfer.
pub proof fn lemma_single_leg_consecutive(leg: LegView, sched: VehicleScheduleView, k: int)
    requires
        0 <= k,
        k + 1 < sched.stops.len(),
        sched.stops[k].station == leg.departure_stop,
        sched.stops[k + 1].station == leg.arrival_stop,
        forall|i: int| 0 <= i <= k ==> (#[trigger] sched.stops[i]).station != leg.arrival_stop,
    ensures
        route_spec(seq![leg], seq![sched]).transfers == 0,
        route_spec(seq![leg], seq![sched]).connections == seq![
            ConnectionView {
                departure_time: sched.stops[k].scheduled_departure,
                arrival_time: sched.stops[k + 1].scheduled_arrival,
                arrival_stop: leg.arrival_stop,
                departure_stop: leg.departure_stop,
                vehicle: vehicle_ref(sched.vehicle),
            },
        ],
{
    lemma_scan_emits(leg, sched.stops, vehicle_ref(sched.vehicle), k, 0, None);
    assert(seq![leg][0] == leg);
    assert(seq![sched][0] == sched);
    assert(conns_upto(seq![leg], seq![sched], 0) == Seq::<ConnectionView>::empty());
    assert(route_spec(seq![leg], seq![sched]).connections =~= seq![
        ConnectionView {
            departure_time: sched.stops[k].scheduled_departure,
            arrival_time: sched.stops[k + 1].scheduled_arrival,
            arrival_stop: leg.arrival_stop,
            departure_stop: leg.departure_stop,
            vehicle: vehicle_ref(sched.vehicle),
        },
    ]);
}

proof fn lemma_scan_endpoints(
    leg: LegView,
    stops: Seq<StopEventView>,
    veh: Seq<char>,
    i: int,
    cursor: Option<(Seq<char>, int)>,
)
    requires
        cursor matches Some(cur) ==> cur.0 == leg.departure_stop,
    ensures
        scan_from(leg, stops, veh, i, cursor) matches Some(c) ==> c.departure_stop
            == leg.departure_stop && c.arrival_stop == leg.arrival_stop && c.vehicle == veh,
    decreases stops.len() - i,
{
    if 0 <= i < stops.len() {
        let ev = stops[i];
        if ev.station == leg.arrival_stop {
        } else if ev.station == leg.departure_stop {
            lemma_scan_endpoints(leg, stops, veh, i + 1, Some((ev.station, ev.scheduled_departure)));
        } else {
            lemma_scan_endpoints(leg, stops, veh, i + 1, cursor);
        }
    }
}

/// A scan that yields a connection always yields one whose endpoints are
/// the leg's declared stops, carried by the leg's vehicle.
pub proof fn lemma_scan_leg_endpoints(leg: LegView, sched: VehicleScheduleView)
    ensures
        scan_leg_spec(leg, sched) matches Some(c) ==> c.departure_stop == leg.departure_stop
            && c.arrival_stop == leg.arrival_stop && c.vehicle == vehicle_ref(sched.vehicle),
{
    lemma_scan_endpoints(leg, sched.stops, vehicle_ref(sched.vehicle), 0, None);
}

/// A two-leg option whose legs both yield a connection reconstructs to one
/// transfer and two connections; and when the transfer happens at one stop
/// (the first leg arrives where the second departs), the connections chain:
/// the first ends at the stop where the second begins.
pub proof fn lemma_two_leg_transfer(
    l0: LegView,
    l1: LegView,
    s0: VehicleScheduleView,
    s1: VehicleScheduleView,
)
    requires
        scan_leg_spec(l0, s0) is Some,
        scan_leg_spec(l1, s1) is Some,
        l0.arrival_stop == l1.departure_stop,
    ensures
        route_spec(seq![l0, l1], seq![s0, s1]).transfers == 1,
        route_spec(seq![l0, l1], seq![s0, s1]).connections.len() == 2,
        route_spec(seq![l0, l1], seq![s0, s1]).connections[0].arrival_stop == route_spec(
            seq![l0, l1],
            seq![s0, s1],
        ).connections[1].departure_stop,
{
    lemma_scan_leg_endpoints(l0, s0);
    lemma_scan_leg_endpoints(l1, s1);
    assert(seq![l0, l1][0] == l0);
    assert(seq![l0, l1][1] == l1);
    assert(seq![s0, s1][0] == s0);
    assert(seq![s0, s1][1] == s1);
    assert(conns_upto(seq![l0, l1], seq![s0, s1], 0) == Seq::<ConnectionView>::empty());
    let c0 = scan_leg_spec(l0, s0)->0;
    let c1 = scan_leg_spec(l1, s1)->0;
    assert(conns_upto(seq![l0, l1], seq![s0, s1], 1) =~= seq![c0]);
    assert(conns_upto(seq![l0, l1], seq![s0, s1], 2) =~= seq![c0, c1]);
    assert(route_spec(seq![l0, l1], seq![s0, s1]).connections =~= seq![c0, c1]);
}


proof fn lemma_conns_upto_len_all_some(
    legs: Seq<LegView>,
    scheds: Seq<VehicleScheduleView>,
    n: int,
)
    requires
        n <= legs.len(),
        legs.len() == scheds.len(),
        forall|i: int| 0 <= i < legs.len() ==> (#[trigger] scan_leg_spec(legs[i], scheds[i]))
            is Some,
    ensures
        conns_upto(legs, scheds, n).len() == if n >= 0 {
            n
        } else {
            0
        },
    decreases n,
{
    if n > 0 {
        lemma_conns_upto_len_all_some(legs, scheds, n - 1);
    }
}

/// When every leg of an option yields its connection, the route holds one
/// connection per leg, and the transfer count is one less than the number
/// of connections (zero for an empty option).
pub proof fn lemma_route_transfer_invariant(legs: Seq<LegView>, scheds: Seq<VehicleScheduleView>)
    requires
        legs.len() == scheds.len(),
        forall|i: int| 0 <= i < legs.len() ==> (#[trigger] scan_leg_spec(legs[i], scheds[i]))
            is Some,
    ensures
        route_spec(legs, scheds).connections.len() == legs.len(),
        route_spec(legs, scheds).transfers == if legs.len() == 0 {
            0
        } else {
            route_spec(legs, scheds).connections.len() - 1
        },
{
    lemma_conns_upto_len_all_some(legs, scheds, legs.len() as int);
}

} // verus!
