use irail_journeys::adapter::{is_connections_query, parse_log_line};
use irail_journeys::json::{json_parse, json_print, Json};
use irail_journeys::model::{
    FetchError, Journey, JourneyOption, Leg, LogRecord, ParseError, Query, ReconstructionError,
    Route, StopEvent, VehicleSchedule,
};
use irail_journeys::reconstruct::{assemble, prepare, reconstruct, scan_leg};
use irail_journeys::schedule::{parse_epoch, parse_vehicle_response};
use irail_journeys::serialize::{serialize_journey, serialize_journey_string};

fn cv(s: &str) -> Vec<char> {
    s.chars().collect()
}

fn leg(trip: &str, dep: &str, arr: &str) -> Leg {
    Leg {
        trip: cv(trip),
        departure_stop: cv(dep),
        arrival_stop: cv(arr),
    }
}

fn stop(station: &str, arr: i64, dep: i64) -> StopEvent {
    StopEvent {
        station: cv(station),
        scheduled_arrival: arr,
        scheduled_departure: dep,
    }
}

fn query() -> Query {
    Query {
        arrival_stop: cv("http://irail.be/stations/NMBS/008892007"),
        departure_stop: cv("http://irail.be/stations/NMBS/008812005"),
        query_time: 1574254800,
        user_agent: cv("test-agent"),
        query_type: cv("connections"),
    }
}

const LOG_LINE: &str = r#"{"querytype":"connections","querytime":"2019-11-20T13:00:00.00Z","user_agent":"test-agent","query":{"departureStop":{"@id":"S1"},"arrivalStop":{"@id":"S3"},"journeyoptions":[{"journeys":[{"trip":"T1","departureStop":"S1","arrivalStop":"S3"}]}]}}"#;

#[test]
fn parse_log_line_reads_all_fields() {
    let rec = parse_log_line(LOG_LINE).unwrap();
    assert_eq!(rec.query_type, Some(cv("connections")));
    assert_eq!(rec.query_time, Some(cv("2019-11-20T13:00:00.00Z")));
    assert_eq!(rec.user_agent, Some(cv("test-agent")));
    assert_eq!(rec.departure_stop, Some(cv("S1")));
    assert_eq!(rec.arrival_stop, Some(cv("S3")));
    assert_eq!(rec.options.len(), 1);
    assert_eq!(rec.options[0].legs.len(), 1);
    assert_eq!(rec.options[0].legs[0].trip, Some(cv("T1")));
    assert_eq!(rec.options[0].legs[0].departure_stop, Some(cv("S1")));
    assert_eq!(rec.options[0].legs[0].arrival_stop, Some(cv("S3")));
}

#[test]
fn parse_log_line_rejects_bad_json() {
    match parse_log_line("this is not json") {
        Err(ParseError::InvalidJson) => {}
        other => panic!("expected InvalidJson, got {:?}", other),
    }
}

#[test]
fn stations_query_is_parsed_but_ignored() {
    let line = r#"{"querytype":"stations","querytime":"2019-11-20T13:00:00.00Z"}"#;
    let rec = parse_log_line(line).unwrap();
    assert_eq!(rec.query_type, Some(cv("stations")));
    assert!(!is_connections_query(&rec));
}

#[test]
fn connections_query_is_dispatched() {
    let rec = parse_log_line(LOG_LINE).unwrap();
    assert!(is_connections_query(&rec));
}

#[test]
fn prepare_parses_rfc3339_timestamp() {
    let rec = parse_log_line(LOG_LINE).unwrap();
    let (q, options) = prepare(&rec).unwrap();
    assert_eq!(q.query_time, 1574254800);
    assert_eq!(q.query_type, cv("connections"));
    assert_eq!(q.departure_stop, cv("S1"));
    assert_eq!(q.arrival_stop, cv("S3"));
    assert_eq!(options.len(), 1);
    assert_eq!(options[0].legs[0].trip, cv("T1"));
}

#[test]
fn prepare_rejects_missing_field() {
    let mut rec = parse_log_line(LOG_LINE).unwrap();
    rec.query_time = None;
    match prepare(&rec) {
        Err(ReconstructionError::MalformedQuery) => {}
        other => panic!("expected MalformedQuery, got {:?}", other),
    }
}

#[test]
fn prepare_rejects_bad_timestamp() {
    let mut rec = parse_log_line(LOG_LINE).unwrap();
    rec.query_time = Some(cv("yesterday at noon"));
    match prepare(&rec) {
        Err(ReconstructionError::MalformedQuery) => {}
        other => panic!("expected MalformedQuery, got {:?}", other),
    }
}

#[test]
fn single_leg_consecutive_stops_one_connection() {
    let sched = VehicleSchedule {
        vehicle: cv("BE.NMBS.IC1234"),
        stops: vec![stop("S1", 100, 110), stop("S2", 200, 210)],
    };
    let options = vec![JourneyOption {
        legs: vec![leg("T1", "S1", "S2")],
    }];
    let fetched = vec![vec![Ok(sched)]];
    let journey = assemble(query(), &options, &fetched).unwrap();
    assert_eq!(journey.routes.len(), 1);
    let route = &journey.routes[0];
    assert_eq!(route.transfers, 0);
    assert_eq!(route.connections.len(), 1);
    let c = &route.connections[0];
    assert_eq!(c.departure_stop, cv("S1"));
    assert_eq!(c.arrival_stop, cv("S2"));
    assert_eq!(c.departure_time, 110);
    assert_eq!(c.arrival_time, 200);
}

#[test]
fn intermediate_stop_is_elided() {
    // Leg T1 from S1 to S3 over stops S1@t0, S2@t1, S3@t2: one connection
    // S1 -> S3, departing at t0's departure and arriving at t2's arrival.
    let sched = VehicleSchedule {
        vehicle: cv("BE.NMBS.IC1234"),
        stops: vec![
            stop("S1", 1000, 1010),
            stop("S2", 1100, 1110),
            stop("S3", 1200, 1210),
        ],
    };
    let l = leg("T1", "S1", "S3");
    let conn = scan_leg(&l, &sched).unwrap();
    assert_eq!(conn.departure_stop, cv("S1"));
    assert_eq!(conn.arrival_stop, cv("S3"));
    assert_eq!(conn.departure_time, 1010);
    assert_eq!(conn.arrival_time, 1200);
    assert_eq!(conn.vehicle, cv("http://irail.be/vehicle/IC1234"));
}

#[test]
fn two_leg_option_has_one_transfer_and_chained_connections() {
    let s0 = VehicleSchedule {
        vehicle: cv("BE.NMBS.IC100"),
        stops: vec![stop("A", 10, 20), stop("M", 30, 40)],
    };
    let s1 = VehicleSchedule {
        vehicle: cv("BE.NMBS.IC200"),
        stops: vec![stop("M", 50, 60), stop("B", 70, 80)],
    };
    let options = vec![JourneyOption {
        legs: vec![leg("T1", "A", "M"), leg("T2", "M", "B")],
    }];
    let fetched = vec![vec![Ok(s0), Ok(s1)]];
    let journey = assemble(query(), &options, &fetched).unwrap();
    let route = &journey.routes[0];
    assert_eq!(route.transfers, 1);
    assert_eq!(route.connections.len(), 2);
    assert_eq!(
        route.connections[0].arrival_stop,
        route.connections[1].departure_stop
    );
    assert_eq!(route.connections[1].departure_stop, cv("M"));
}

#[test]
fn fetch_failure_abandons_whole_journey() {
    let sched = VehicleSchedule {
        vehicle: cv("BE.NMBS.IC100"),
        stops: vec![stop("A", 10, 20), stop("M", 30, 40)],
    };
    let options = vec![JourneyOption {
        legs: vec![leg("T1", "A", "M"), leg("T2", "M", "B")],
    }];
    let fetched = vec![vec![Ok(sched), Err(FetchError::UpstreamUnavailable)]];
    match assemble(query(), &options, &fetched) {
        Err(ReconstructionError::IncompleteVehicleData) => {}
        other => panic!("expected IncompleteVehicleData, got {:?}", other),
    }
}

#[test]
fn one_route_per_journey_option() {
    let mk = |st: &str, en: &str| VehicleSchedule {
        vehicle: cv("BE.NMBS.L1"),
        stops: vec![stop(st, 10, 20), stop(en, 30, 40)],
    };
    let options = vec![
        JourneyOption {
            legs: vec![leg("T1", "A", "B")],
        },
        JourneyOption {
            legs: vec![leg("T2", "A", "C")],
        },
    ];
    let fetched = vec![vec![Ok(mk("A", "B"))], vec![Ok(mk("A", "C"))]];
    let journey = assemble(query(), &options, &fetched).unwrap();
    assert_eq!(journey.routes.len(), options.len());
}

#[test]
fn reconstruct_runs_end_to_end() {
    let rec = parse_log_line(LOG_LINE).unwrap();
    let sched = VehicleSchedule {
        vehicle: cv("BE.NMBS.IC1234"),
        stops: vec![
            stop("S1", 1000, 1010),
            stop("S2", 1100, 1110),
            stop("S3", 1200, 1210),
        ],
    };
    let fetched = vec![vec![Ok(sched)]];
    let journey = reconstruct(&rec, &fetched).unwrap();
    assert_eq!(journey.query.query_time, 1574254800);
    assert_eq!(journey.routes.len(), 1);
    assert_eq!(journey.routes[0].connections.len(), 1);
    assert_eq!(journey.routes[0].connections[0].arrival_stop, cv("S3"));
}

#[test]
fn vehicle_never_at_departure_stop_yields_no_connection() {
    let sched = VehicleSchedule {
        vehicle: cv("BE.NMBS.IC1"),
        stops: vec![stop("X", 10, 20), stop("S3", 30, 40)],
    };
    let l = leg("T1", "S1", "S3");
    assert!(scan_leg(&l, &sched).is_none());
}

#[test]
fn degenerate_leg_yields_no_connection() {
    // The arrival check comes first, so a leg whose departure and arrival
    // coincide never boards.
    let sched = VehicleSchedule {
        vehicle: cv("BE.NMBS.IC1"),
        stops: vec![stop("S1", 10, 20), stop("S2", 30, 40)],
    };
    let l = leg("T1", "S1", "S1");
    assert!(scan_leg(&l, &sched).is_none());
}

const VEHICLE_BODY: &str = r#"{"vehicle":"BE.NMBS.IC1234","stops":{"stop":[{"stationinfo":{"@id":"S1"},"scheduledArrivalTime":"1000","scheduledDepartureTime":"1010"},{"stationinfo":{"@id":"S2"},"scheduledArrivalTime":"1100","scheduledDepartureTime":"1110"}]}}"#;

#[test]
fn vehicle_response_parses() {
    let body: Vec<char> = VEHICLE_BODY.chars().collect();
    let sched = parse_vehicle_response(&body).unwrap();
    assert_eq!(sched.vehicle, cv("BE.NMBS.IC1234"));
    assert_eq!(sched.stops.len(), 2);
    assert_eq!(sched.stops[0].station, cv("S1"));
    assert_eq!(sched.stops[0].scheduled_arrival, 1000);
    assert_eq!(sched.stops[1].scheduled_departure, 1110);
}

#[test]
fn vehicle_response_with_bad_time_is_malformed() {
    let body: Vec<char> = VEHICLE_BODY.replace("\"1000\"", "\"abc\"").chars().collect();
    match parse_vehicle_response(&body) {
        Err(FetchError::MalformedResponse) => {}
        other => panic!("expected MalformedResponse, got {:?}", other),
    }
}

#[test]
fn vehicle_response_without_stops_is_malformed() {
    let body: Vec<char> = r#"{"vehicle":"BE.NMBS.IC1"}"#.chars().collect();
    match parse_vehicle_response(&body) {
        Err(FetchError::MalformedResponse) => {}
        other => panic!("expected MalformedResponse, got {:?}", other),
    }
}

#[test]
fn parse_epoch_reads_digits() {
    assert_eq!(parse_epoch(&cv("1574254800")), Some(1574254800));
    assert_eq!(parse_epoch(&cv("0")), Some(0));
    assert_eq!(parse_epoch(&cv("")), None);
    assert_eq!(parse_epoch(&cv("12a4")), None);
    assert_eq!(parse_epoch(&cv("-5")), None);
    // nineteen digits are out of range
    assert_eq!(parse_epoch(&cv("1234567890123456789")), None);
    // eighteen digits fit
    assert_eq!(parse_epoch(&cv("123456789012345678")), Some(123456789012345678));
}

fn sample_journey() -> Journey {
    Journey {
        query: Query {
            arrival_stop: cv("S3"),
            departure_stop: cv("S1"),
            query_time: 1574254800,
            user_agent: cv("test-agent"),
            query_type: cv("connections"),
        },
        routes: vec![Route {
            connections: vec![irail_journeys::model::Connection {
                departure_time: 1574255000,
                arrival_time: 1574256000,
                arrival_stop: cv("S3"),
                departure_stop: cv("S1"),
                vehicle: cv("http://irail.be/vehicle/IC1234"),
            }],
            transfers: 0,
        }],
    }
}

#[test]
fn serialize_journey_exact_text() {
    let s = serialize_journey_string(&sample_journey()).unwrap();
    let expected = r#"{"query":{"arrival_stop":"S3","departure_stop":"S1","query_time":"2019-11-20T13:00:00.00Z","user_agent":"test-agent","query_type":"connections"},"routes":[{"connections":[{"departureTime":"2019-11-20T13:03:20.00Z","arrivalTime":"2019-11-20T13:20:00.00Z","arrivalStop":"S3","departureStop":"S1","gtfs:vehicle":"http://irail.be/vehicle/IC1234"}],"transfers":0}]}"#;
    assert_eq!(s, expected);
}

#[test]
fn serialized_journey_parses_back() {
    // Round trip: serialize, parse with the library's own parser, and check
    // that the query and route data come back, timestamps as printed text.
    let journey = sample_journey();
    let out = serialize_journey(&journey).unwrap();
    let doc = json_parse(&out).unwrap();
    let get = |d: &Json, k: &str| -> Json {
        match d {
            Json::Obj(ms) => {
                for (key, v) in ms.iter().rev() {
                    if *key == cv(k) {
                        return clone_json(v);
                    }
                }
                panic!("missing key {}", k)
            }
            _ => panic!("not an object"),
        }
    };
    let q = get(&doc, "query");
    assert_eq!(get(&q, "arrival_stop"), Json::Str(cv("S3")));
    assert_eq!(get(&q, "departure_stop"), Json::Str(cv("S1")));
    assert_eq!(get(&q, "query_time"), Json::Str(cv("2019-11-20T13:00:00.00Z")));
    assert_eq!(get(&q, "user_agent"), Json::Str(cv("test-agent")));
    assert_eq!(get(&q, "query_type"), Json::Str(cv("connections")));
    let routes = match get(&doc, "routes") {
        Json::Arr(rs) => rs,
        _ => panic!("routes is not an array"),
    };
    assert_eq!(routes.len(), 1);
    assert_eq!(get(&routes[0], "transfers"), Json::Num(cv("0")));
    let conns = match get(&routes[0], "connections") {
        Json::Arr(cs) => cs,
        _ => panic!("connections is not an array"),
    };
    assert_eq!(conns.len(), 1);
    assert_eq!(get(&conns[0], "departureStop"), Json::Str(cv("S1")));
    assert_eq!(get(&conns[0], "arrivalStop"), Json::Str(cv("S3")));
    assert_eq!(
        get(&conns[0], "gtfs:vehicle"),
        Json::Str(cv("http://irail.be/vehicle/IC1234"))
    );
}

fn clone_json(v: &Json) -> Json {
    match v {
        Json::Null => Json::Null,
        Json::Bool(b) => Json::Bool(*b),
        Json::Num(t) => Json::Num(t.clone()),
        Json::Str(t) => Json::Str(t.clone()),
        Json::Arr(es) => Json::Arr(es.iter().map(clone_json).collect()),
        Json::Obj(ms) => Json::Obj(ms.iter().map(|(k, v)| (k.clone(), clone_json(v))).collect()),
    }
}

#[test]
fn serialized_journey_is_valid_json_for_serde() {
    let s = serialize_journey_string(&sample_journey()).unwrap();
    let v: serde_json::Value = serde_json::from_str(&s).unwrap();
    assert_eq!(v["query"]["departure_stop"], "S1");
    assert_eq!(v["routes"][0]["transfers"], 0);
    assert_eq!(v["routes"][0]["connections"][0]["arrivalStop"], "S3");
}

#[test]
fn json_parser_handles_escapes_and_nesting() {
    let text: Vec<char> = r#"{"a":[1,-2.5e3,true,null,"x\nA\"y"],"a":{"b":[]}}"#
        .chars()
        .collect();
    let doc = json_parse(&text).unwrap();
    match &doc {
        Json::Obj(ms) => {
            assert_eq!(ms.len(), 2);
            match &ms[0].1 {
                Json::Arr(es) => {
                    assert_eq!(es.len(), 5);
                    assert_eq!(es[0], Json::Num(cv("1")));
                    assert_eq!(es[1], Json::Num(cv("-2.5e3")));
                    assert_eq!(es[2], Json::Bool(true));
                    assert_eq!(es[3], Json::Null);
                    assert_eq!(es[4], Json::Str(cv("x\nA\"y")));
                }
                _ => panic!("expected array"),
            }
        }
        _ => panic!("expected object"),
    }
    let printed = json_print(&doc);
    let reparsed = json_parse(&printed).unwrap();
    assert_eq!(doc, reparsed);
}

#[test]
fn json_parser_rejects_malformed_documents() {
    for bad in [
        "{",
        "[1,]",
        "{\"a\":}",
        "tru",
        "01",
        "\"unterminated",
        "{\"a\":1}trailing",
        "",
    ] {
        let text: Vec<char> = bad.chars().collect();
        assert!(json_parse(&text).is_none(), "accepted: {}", bad);
    }
}

#[test]
fn route_getters_read_the_endpoints() {
    let route = Route {
        connections: vec![
            irail_journeys::model::Connection {
                departure_time: 10,
                arrival_time: 20,
                arrival_stop: cv("M"),
                departure_stop: cv("A"),
                vehicle: cv("http://irail.be/vehicle/IC1"),
            },
            irail_journeys::model::Connection {
                departure_time: 30,
                arrival_time: 40,
                arrival_stop: cv("B"),
                departure_stop: cv("M"),
                vehicle: cv("http://irail.be/vehicle/IC2"),
            },
        ],
        transfers: 1,
    };
    assert_eq!(route.departure_stop(), &cv("A"));
    assert_eq!(route.arrival_stop(), &cv("B"));
    assert_eq!(route.departure_time(), 10);
    assert_eq!(route.arrival_time(), 40);
    assert_eq!(route.number_of_connections(), 2);
    assert_eq!(route.number_of_transfers(), 1);
    assert_eq!(route.connection().len(), 2);
}
