//! Writing a reconstructed journey as one JSON document.
//!
//! The document mirrors the lookup API's casing: each connection carries
//! `departureTime`, `arrivalTime`, `arrivalStop`, `departureStop` and
//! `gtfs:vehicle`; a route carries `connections` and `transfers`; the whole
//! document carries `query` and `routes`.  Timestamps are printed through
//! chrono as `%Y-%m-%dT%H:%M:%S.00Z`.

use vstd::prelude::*;
use crate::json::{Json, JsonView, j_get, as_text, jprint, hex_digit, elems_view,
    lemma_elems_view, lemma_pairs_view, obj_get};
use crate::model::{Connection, ConnectionView, Route, RouteView, Journey, JourneyView, QueryView};
use crate::text::{str_chars, chars_copy, chars_to_string};
use crate::timefmt::fmt_00z;

verus! {

// ---------------------------------------------------------------------------
// Decimal rendering of the transfer count
// ---------------------------------------------------------------------------

/// The decimal digits of a non-negative number.
pub open spec fn dec_digits(n: int) -> Seq<char>
    decreases n,
{
    if n < 10 {
        seq![hex_digit(n)]
    } else {
        dec_digits(n / 10) + seq![hex_digit(n % 10)]
    }
}

fn u32_digits(n: u32) -> (r: Vec<char>)
    ensures
        r@ == dec_digits(n as int),
    decreases n,
{
    if n < 10 {
        let mut r: Vec<char> = Vec::new();
        r.push(ex_digit((n % 10) as u8));
        proof {
            assert(r@ =~= dec_digits(n as int));
        }
        r
    } else {
        let mut r = u32_digits(n / 10);
        r.push(ex_digit((n % 10) as u8));
        proof {
            assert(r@ =~= dec_digits(n as int / 10) + seq![hex_digit(n as int % 10)]);
        }
        r
    }
}

fn ex_digit(d: u8) -> (r: char)
    requires
        d < 10,
    ensures
        r == hex_digit(d as int),
{
    if d == 0 { '0' } else if d == 1 { '1' } else if d == 2 { '2' } else if d == 3 { '3' }
    else if d == 4 { '4' } else if d == 5 { '5' } else if d == 6 { '6' } else if d == 7 { '7' }
    else if d == 8 { '8' } else { '9' }
}

// ---------------------------------------------------------------------------
// The document, mathematically
// ---------------------------------------------------------------------------

/// Whether every timestamp of the journey lies in chrono's printable range.
pub open spec fn times_ok(j: JourneyView) -> bool {
    &&& fmt_00z(j.query.query_time) is Some
    &&& forall|r: int, c: int|
        0 <= r < j.routes.len() && 0 <= c < (#[trigger] j.routes[r]).connections.len() ==> {
            let conn = #[trigger] j.routes[r].connections[c];
            fmt_00z(conn.departure_time) is Some && fmt_00z(conn.arrival_time) is Some
        }
}

/// The document of one connection.
pub open spec fn conn_doc(c: ConnectionView) -> JsonView {
    JsonView::Obj(
        seq![
            ("departureTime"@, JsonView::Str(fmt_00z(c.departure_time)->0)),
            ("arrivalTime"@, JsonView::Str(fmt_00z(c.arrival_time)->0)),
            ("arrivalStop"@, JsonView::Str(c.arrival_stop)),
            ("departureStop"@, JsonView::Str(c.departure_stop)),
            ("gtfs:vehicle"@, JsonView::Str(c.vehicle)),
        ],
    )
}

/// The document of one route.
pub open spec fn route_doc(r: RouteView) -> JsonView {
    JsonView::Obj(
        seq![
            (
                "connections"@,
                JsonView::Arr(Seq::new(r.connections.len(), |i: int| conn_doc(r.connections[i]))),
            ),
            ("transfers"@, JsonView::Num(dec_digits(r.transfers))),
        ],
    )
}

/// The document of the query.
pub open spec fn query_doc(q: QueryView) -> JsonView {
    JsonView::Obj(
        seq![
            ("arrival_stop"@, JsonView::Str(q.arrival_stop)),
            ("departure_stop"@, JsonView::Str(q.departure_stop)),
            ("query_time"@, JsonView::Str(fmt_00z(q.query_time)->0)),
            ("user_agent"@, JsonView::Str(q.user_agent)),
            ("query_type"@, JsonView::Str(q.query_type)),
        ],
    )
}

/// The document of a whole journey.
pub open spec fn journey_doc(j: JourneyView) -> JsonView {
    JsonView::Obj(
        seq![
            ("query"@, query_doc(j.query)),
            ("routes"@, JsonView::Arr(Seq::new(j.routes.len(), |i: int| route_doc(j.routes[i])))),
        ],
    )
}

/// The exact text a journey serializes to.
pub open spec fn journey_text(j: JourneyView) -> Seq<char> {
    jprint(journey_doc(j))
}

// ---------------------------------------------------------------------------
// The executable writer
// ---------------------------------------------------------------------------

fn fmt_time(t: i64) -> (r: Option<Vec<char>>)
    ensures
        match r {
            Some(s) => fmt_00z(t as int) == Some(s@),
            None => fmt_00z(t as int) is None,
        },
{
    match crate::timefmt::format_epoch(t) {
        Some(s) => Some(str_chars(s.as_str())),
        None => None,
    }
}

fn conn_to_json(c: &Connection) -> (r: Option<Json>)
    ensures
        match r {
            Some(d) => fmt_00z(c@.departure_time) is Some && fmt_00z(c@.arrival_time) is Some
                && d@ == conn_doc(c@),
            None => fmt_00z(c@.departure_time) is None || fmt_00z(c@.arrival_time) is None,
        },
{
    let dt = match fmt_time(c.departure_time) {
        Some(t) => t,
        None => {
            return None;
        },
    };
    let at = match fmt_time(c.arrival_time) {
        Some(t) => t,
        None => {
            return None;
        },
    };
    let mut ms: Vec<(Vec<char>, Json)> = Vec::new();
    ms.push((str_chars("departureTime"), Json::Str(dt)));
    ms.push((str_chars("arrivalTime"), Json::Str(at)));
    ms.push((str_chars("arrivalStop"), Json::Str(chars_copy(&c.arrival_stop))));
    ms.push((str_chars("departureStop"), Json::Str(chars_copy(&c.departure_stop))));
    ms.push((str_chars("gtfs:vehicle"), Json::Str(chars_copy(&c.vehicle))));
    let d = Json::Obj(ms);
    proof {
        lemma_pairs_view(d->Obj_0@);
        assert(d@ matches JsonView::Obj(x) && x =~= conn_doc(c@)->Obj_0);
    }
    Some(d)
}

fn route_to_json(r: &Route) -> (res: Option<Json>)
    ensures
        match res {
            Some(d) => d@ == route_doc(r@) && forall|c: int|
                0 <= c < r@.connections.len() ==> fmt_00z(
                    (#[trigger] r@.connections[c]).departure_time,
                ) is Some && fmt_00z(r@.connections[c].arrival_time) is Some,
            None => exists|c: int|
                0 <= c < r@.connections.len() && (fmt_00z(
                    (#[trigger] r@.connections[c]).departure_time,
                ) is None || fmt_00z(r@.connections[c].arrival_time) is None),
        },
{
    let mut es: Vec<Json> = Vec::new();
    let ghost target = Seq::new(r@.connections.len(), |i: int| conn_doc(r@.connections[i]));
    let mut i: usize = 0;
    while i < r.connections.len()
        invariant
            i <= r@.connections.len(),
            target == Seq::new(r@.connections.len(), |k: int| conn_doc(r@.connections[k])),
            r@.connections.len() == r.connections@.len(),
            forall|k: int|
                0 <= k < r@.connections.len() ==> #[trigger] r@.connections[k]
                    == r.connections@[k]@,
            es@.len() == i,
            forall|k: int| 0 <= k < i ==> #[trigger] es@[k]@ == target[k],
            forall|k: int|
                0 <= k < i ==> fmt_00z((#[trigger] r@.connections[k]).departure_time) is Some
                    && fmt_00z(r@.connections[k].arrival_time) is Some,
        decreases r@.connections.len() - i,
    {
        match conn_to_json(&r.connections[i]) {
            Some(d) => {
                es.push(d);
            },
            None => {
                proof {
                    assert(0 <= i < r@.connections.len() && (fmt_00z(
                        (#[trigger] r@.connections[i as int]).departure_time,
                    ) is None || fmt_00z(r@.connections[i as int].arrival_time) is None));
                }
                return None;
            },
        }
        i = i + 1;
    }
    let ghost esv = es@;
    let mut ms: Vec<(Vec<char>, Json)> = Vec::new();
    ms.push((str_chars("connections"), Json::Arr(es)));
    ms.push((str_chars("transfers"), Json::Num(u32_digits(r.transfers))));
    let d = Json::Obj(ms);
    proof {
        lemma_pairs_view(d->Obj_0@);
        lemma_elems_view(esv);
        assert(d->Obj_0@[0].1->Arr_0@ == esv);
        assert forall|n: int| 0 <= n < esv.len() implies elems_view(esv)[n] == target[n] by {
            assert(elems_view(esv)[n] == esv[n]@);
        }
        assert(elems_view(esv) =~= target);
        assert(d@ matches JsonView::Obj(x) && x =~= route_doc(r@)->Obj_0);
    }
    Some(d)
}

/// The JSON document of a journey, or `None` when a timestamp lies outside
/// chrono's printable range.
pub fn journey_to_json(j: &Journey) -> (r: Option<Json>)
    ensures
        r is Some <==> times_ok(j@),
        r matches Some(d) ==> d@ == journey_doc(j@),
{
    let qt = match fmt_time(j.query.query_time) {
        Some(t) => t,
        None => {
            return None;
        },
    };
    let mut qm: Vec<(Vec<char>, Json)> = Vec::new();
    qm.push((str_chars("arrival_stop"), Json::Str(chars_copy(&j.query.arrival_stop))));
    qm.push((str_chars("departure_stop"), Json::Str(chars_copy(&j.query.departure_stop))));
    qm.push((str_chars("query_time"), Json::Str(qt)));
    qm.push((str_chars("user_agent"), Json::Str(chars_copy(&j.query.user_agent))));
    qm.push((str_chars("query_type"), Json::Str(chars_copy(&j.query.query_type))));
    let qd = Json::Obj(qm);
    proof {
        lemma_pairs_view(qd->Obj_0@);
        assert(qd@ matches JsonView::Obj(x) && x =~= query_doc(j@.query)->Obj_0);
    }
    let mut rs: Vec<Json> = Vec::new();
    let ghost target = Seq::new(j@.routes.len(), |i: int| route_doc(j@.routes[i]));
    let mut i: usize = 0;
    while i < j.routes.len()
        invariant
            i <= j@.routes.len(),
            target == Seq::new(j@.routes.len(), |k: int| route_doc(j@.routes[k])),
            j@.routes.len() == j.routes@.len(),
            forall|k: int| 0 <= k < j@.routes.len() ==> #[trigger] j@.routes[k] == j.routes@[k]@,
            rs@.len() == i,
            forall|k: int| 0 <= k < i ==> #[trigger] rs@[k]@ == target[k],
            forall|k: int, c: int|
                0 <= k < i && 0 <= c < (#[trigger] j@.routes[k]).connections.len() ==> fmt_00z(
                    (#[trigger] j@.routes[k].connections[c]).departure_time,
                ) is Some && fmt_00z(j@.routes[k].connections[c].arrival_time) is Some,
        decreases j@.routes.len() - i,
    {
        match route_to_json(&j.routes[i]) {
            Some(d) => {
                rs.push(d);
            },
            None => {
                proof {
                    let ghost rv = j@.routes[i as int];
                    let c = choose|c: int|
                        0 <= c < rv.connections.len() && (fmt_00z(
                            (#[trigger] rv.connections[c]).departure_time,
                        ) is None || fmt_00z(rv.connections[c].arrival_time) is None);
                    assert(0 <= i < j@.routes.len() && 0 <= c < (#[trigger] j@.routes[
                        i as int
                    ]).connections.len() && (fmt_00z(
                        (#[trigger] j@.routes[i as int].connections[c]).departure_time,
                    ) is None || fmt_00z(j@.routes[i as int].connections[c].arrival_time)
                        is None));
                    assert(!times_ok(j@));
                }
                return None;
            },
        }
        i = i + 1;
    }
    let ghost rsv = rs@;
    let ghost qdv = qd@;
    let mut ms: Vec<(Vec<char>, Json)> = Vec::new();
    ms.push((str_chars("query"), qd));
    ms.push((str_chars("routes"), Json::Arr(rs)));
    let d = Json::Obj(ms);
    proof {
        lemma_pairs_view(d->Obj_0@);
        lemma_elems_view(rsv);
        assert(d->Obj_0@[1].1->Arr_0@ == rsv);
        assert forall|n: int| 0 <= n < rsv.len() implies elems_view(rsv)[n] == target[n] by {
            assert(elems_view(rsv)[n] == rsv[n]@);
        }
        assert(elems_view(rsv) =~= target);
        assert(d->Obj_0@[0].1@ == qdv);
        assert(d@ matches JsonView::Obj(x) && x =~= journey_doc(j@)->Obj_0);
        assert(times_ok(j@));
    }
    Some(d)
}

/// Serialize a journey to its JSON text, or `None` when a timestamp lies
/// outside chrono's printable range.
pub fn serialize_journey(j: &Journey) -> (r: Option<Vec<char>>)
    ensures
        r is Some <==> times_ok(j@),
        r matches Some(out) ==> out@ == journey_text(j@),
{
    match journey_to_json(j) {
        Some(d) => Some(crate::json::json_print(&d)),
        None => None,
    }
}

/// Serialize a journey to a JSON string, or `None` when a timestamp lies
/// outside chrono's printable range.
pub fn serialize_journey_string(j: &Journey) -> (r: Option<String>)
    ensures
        r is Some <==> times_ok(j@),
        r matches Some(out) ==> out@ == journey_text(j@),
{
    match serialize_journey(j) {
        Some(cs) => Some(chars_to_string(&cs)),
        None => None,
    }
}

// ---------------------------------------------------------------------------
// Reading a connection document back
// ---------------------------------------------------------------------------

/// What one connection document parses back to: the five fields, with the
/// timestamps still as printed text.
pub open spec fn conn_fields_of(v: JsonView) -> (
    Option<Seq<char>>,
    Option<Seq<char>>,
    Option<Seq<char>>,
    Option<Seq<char>>,
    Option<Seq<char>>,
) {
    (
        as_text(j_get(v, "departureTime"@)),
        as_text(j_get(v, "arrivalTime"@)),
        as_text(j_get(v, "arrivalStop"@)),
        as_text(j_get(v, "departureStop"@)),
        as_text(j_get(v, "gtfs:vehicle"@)),
    )
}

/// Writing one connection and reading it back yields the connection's own
/// fields: the stop identifiers and vehicle reference unchanged, and the
/// timestamps as their printed text.
pub proof fn lemma_conn_round_trip(c: ConnectionView)
    requires
        fmt_00z(c.departure_time) is Some,
        fmt_00z(c.arrival_time) is Some,
    ensures
        conn_fields_of(conn_doc(c)) == (
            Some(fmt_00z(c.departure_time)->0),
            Some(fmt_00z(c.arrival_time)->0),
            Some(c.arrival_stop),
            Some(c.departure_stop),
            Some(c.vehicle),
        ),
{
    reveal_strlit("departureTime");
    reveal_strlit("arrivalTime");
    reveal_strlit("arrivalStop");
    reveal_strlit("departureStop");
    reveal_strlit("gtfs:vehicle");
    let ms = conn_doc(c)->Obj_0;
    assert(ms.drop_last() =~= ms.take(4));
    assert(ms.take(4).drop_last() =~= ms.take(3));
    assert(ms.take(3).drop_last() =~= ms.take(2));
    assert(ms.take(2).drop_last() =~= ms.take(1));
    assert(ms.take(1).drop_last() =~= ms.take(0));
    assert(ms.take(1).last() == ms[0]);
    assert(ms.take(2).last() == ms[1]);
    assert(ms.take(3).last() == ms[2]);
    assert(ms.take(4).last() == ms[3]);
    assert(ms.take(5).last() == ms[4]);
    assert("arrivalTime"@.len() != "departureTime"@.len());
    assert("arrivalTime"@ != "departureTime"@);
    assert("arrivalStop"@.len() != "departureTime"@.len());
    assert("arrivalStop"@ != "departureTime"@);
    assert("departureStop"@[9] == 'S' && "departureTime"@[9] == 'T');
    assert("departureStop"@ != "departureTime"@);
    assert("gtfs:vehicle"@.len() != "departureTime"@.len());
    assert("gtfs:vehicle"@ != "departureTime"@);
    assert("arrivalStop"@[7] == 'S' && "arrivalTime"@[7] == 'T');
    assert("arrivalStop"@ != "arrivalTime"@);
    assert("departureStop"@.len() != "arrivalTime"@.len());
    assert("departureStop"@ != "arrivalTime"@);
    assert("gtfs:vehicle"@.len() != "arrivalTime"@.len());
    assert("gtfs:vehicle"@ != "arrivalTime"@);
    assert("departureStop"@.len() != "arrivalStop"@.len());
    assert("departureStop"@ != "arrivalStop"@);
    assert("gtfs:vehicle"@.len() != "arrivalStop"@.len());
    assert("gtfs:vehicle"@ != "arrivalStop"@);
    assert("gtfs:vehicle"@.len() != "departureStop"@.len());
    assert("gtfs:vehicle"@ != "departureStop"@);
    assert(obj_get(ms, "departureTime"@) == obj_get(ms.take(4), "departureTime"@));
    assert(obj_get(ms.take(4), "departureTime"@) == obj_get(ms.take(3), "departureTime"@));
    assert(obj_get(ms.take(3), "departureTime"@) == obj_get(ms.take(2), "departureTime"@));
    assert(obj_get(ms.take(2), "departureTime"@) == obj_get(ms.take(1), "departureTime"@));
    assert(obj_get(ms, "departureTime"@) == Some(ms[0].1));
    assert(obj_get(ms, "arrivalTime"@) == obj_get(ms.take(4), "arrivalTime"@));
    assert(obj_get(ms.take(4), "arrivalTime"@) == obj_get(ms.take(3), "arrivalTime"@));
    assert(obj_get(ms.take(3), "arrivalTime"@) == obj_get(ms.take(2), "arrivalTime"@));
    assert(obj_get(ms, "arrivalTime"@) == Some(ms[1].1));
    assert(obj_get(ms, "arrivalStop"@) == obj_get(ms.take(4), "arrivalStop"@));
    assert(obj_get(ms.take(4), "arrivalStop"@) == obj_get(ms.take(3), "arrivalStop"@));
    assert(obj_get(ms, "arrivalStop"@) == Some(ms[2].1));
    assert(obj_get(ms, "departureStop"@) == obj_get(ms.take(4), "departureStop"@));
    assert(obj_get(ms, "departureStop"@) == Some(ms[3].1));
    assert(obj_get(ms, "gtfs:vehicle"@) == Some(ms[4].1));
}


/// A printed transfer count reads back to its own value.
pub proof fn lemma_dec_digits_value(n: int)
    requires
        n >= 0,
    ensures
        1 <= dec_digits(n).len(),
        crate::schedule::all_digits(dec_digits(n)),
        crate::schedule::dec_val(dec_digits(n)) == n,
    decreases n,
{
    if n < 10 {
        assert(hex_digit(n) as u32 == 48 + n);
        assert(crate::json::is_digit(hex_digit(n)));
        assert(dec_digits(n).drop_last() =~= Seq::<char>::empty());
        assert(dec_digits(n).last() == hex_digit(n));
        assert(crate::schedule::dec_val(Seq::<char>::empty()) == 0);
        assert(crate::schedule::dec_val(dec_digits(n)) == n);
    } else {
        lemma_dec_digits_value(n / 10);
        let pre = dec_digits(n / 10);
        let d = hex_digit(n % 10);
        assert(crate::json::is_digit(d));
        assert((pre + seq![d]).drop_last() =~= pre);
        assert((pre + seq![d]).last() == d);
        assert forall|i: int| 0 <= i < (pre + seq![d]).len() implies crate::json::is_digit(
            (pre + seq![d])[i],
        ) by {
            if i < pre.len() {
                assert((pre + seq![d])[i] == pre[i]);
            }
        }
        assert(crate::schedule::dec_val(pre + seq![d]) == n);
    }
}

/// Writing the query and reading it back yields the query's own fields,
/// with the timestamp as its printed text.
pub proof fn lemma_query_round_trip(q: QueryView)
    requires
        fmt_00z(q.query_time) is Some,
    ensures
        as_text(j_get(query_doc(q), "arrival_stop"@)) == Some(q.arrival_stop),
        as_text(j_get(query_doc(q), "departure_stop"@)) == Some(q.departure_stop),
        as_text(j_get(query_doc(q), "query_time"@)) == Some(fmt_00z(q.query_time)->0),
        as_text(j_get(query_doc(q), "user_agent"@)) == Some(q.user_agent),
        as_text(j_get(query_doc(q), "query_type"@)) == Some(q.query_type),
{
    reveal_strlit("arrival_stop");
    reveal_strlit("departure_stop");
    reveal_strlit("query_time");
    reveal_strlit("user_agent");
    reveal_strlit("query_type");
    let ms = query_doc(q)->Obj_0;
    assert(ms.take(1).last() == ms[0]);
    assert(ms.take(2).last() == ms[1]);
    assert(ms.take(3).last() == ms[2]);
    assert(ms.take(4).last() == ms[3]);
    assert(ms.take(5).last() == ms[4]);
    assert(ms.drop_last() =~= ms.take(4));
    assert(ms.take(4).drop_last() =~= ms.take(3));
    assert(ms.take(3).drop_last() =~= ms.take(2));
    assert(ms.take(2).drop_last() =~= ms.take(1));
    assert(ms.take(1).drop_last() =~= ms.take(0));
    assert("departure_stop"@.len() != "arrival_stop"@.len());
    assert("departure_stop"@ != "arrival_stop"@);
    assert("query_time"@.len() != "arrival_stop"@.len());
    assert("query_time"@ != "arrival_stop"@);
    assert("user_agent"@.len() != "arrival_stop"@.len());
    assert("user_agent"@ != "arrival_stop"@);
    assert("query_type"@.len() != "arrival_stop"@.len());
    assert("query_type"@ != "arrival_stop"@);
    assert("query_time"@.len() != "departure_stop"@.len());
    assert("query_time"@ != "departure_stop"@);
    assert("user_agent"@.len() != "departure_stop"@.len());
    assert("user_agent"@ != "departure_stop"@);
    assert("query_type"@.len() != "departure_stop"@.len());
    assert("query_type"@ != "departure_stop"@);
    assert("user_agent"@[0] == 'u' && "query_time"@[0] == 'q');
    assert("user_agent"@ != "query_time"@);
    assert("query_type"@[7] == 'y' && "query_time"@[7] == 'i');
    assert("query_type"@ != "query_time"@);
    assert("query_type"@[0] == 'q' && "user_agent"@[0] == 'u');
    assert("query_type"@ != "user_agent"@);
    assert(obj_get(ms, "arrival_stop"@) == obj_get(ms.take(4), "arrival_stop"@));
    assert(obj_get(ms.take(4), "arrival_stop"@) == obj_get(ms.take(3), "arrival_stop"@));
    assert(obj_get(ms.take(3), "arrival_stop"@) == obj_get(ms.take(2), "arrival_stop"@));
    assert(obj_get(ms.take(2), "arrival_stop"@) == obj_get(ms.take(1), "arrival_stop"@));
    assert(obj_get(ms.take(1), "arrival_stop"@) == Some(ms[0].1));
    assert(obj_get(ms, "arrival_stop"@) == Some(ms[0].1));
    assert(obj_get(ms, "departure_stop"@) == obj_get(ms.take(4), "departure_stop"@));
    assert(obj_get(ms.take(4), "departure_stop"@) == obj_get(ms.take(3), "departure_stop"@));
    assert(obj_get(ms.take(3), "departure_stop"@) == obj_get(ms.take(2), "departure_stop"@));
    assert(obj_get(ms.take(2), "departure_stop"@) == Some(ms[1].1));
    assert(obj_get(ms, "departure_stop"@) == Some(ms[1].1));
    assert(obj_get(ms, "query_time"@) == obj_get(ms.take(4), "query_time"@));
    assert(obj_get(ms.take(4), "query_time"@) == obj_get(ms.take(3), "query_time"@));
    assert(obj_get(ms.take(3), "query_time"@) == Some(ms[2].1));
    assert(obj_get(ms, "query_time"@) == Some(ms[2].1));
    assert(obj_get(ms, "user_agent"@) == obj_get(ms.take(4), "user_agent"@));
    assert(obj_get(ms.take(4), "user_agent"@) == Some(ms[3].1));
    assert(obj_get(ms, "user_agent"@) == Some(ms[3].1));
    assert(obj_get(ms, "query_type"@) == Some(ms[4].1));
}

/// Writing one route and reading it back yields the route's connections,
/// document by document, and its transfer count as decimal text.
pub proof fn lemma_route_round_trip(r: RouteView)
    ensures
        j_get(route_doc(r), "connections"@) == Some(
            JsonView::Arr(Seq::new(r.connections.len(), |i: int| conn_doc(r.connections[i]))),
        ),
        j_get(route_doc(r), "transfers"@) == Some(JsonView::Num(dec_digits(r.transfers))),
{
    reveal_strlit("connections");
    reveal_strlit("transfers");
    let ms = route_doc(r)->Obj_0;
    assert(ms.take(1).last() == ms[0]);
    assert(ms.take(2).last() == ms[1]);
    assert(ms.drop_last() =~= ms.take(1));
    assert(ms.take(1).drop_last() =~= ms.take(0));
    assert("transfers"@.len() != "connections"@.len());
    assert("transfers"@ != "connections"@);
    assert(obj_get(ms, "connections"@) == obj_get(ms.take(1), "connections"@));
    assert(obj_get(ms.take(1), "connections"@) == Some(ms[0].1));
    assert(obj_get(ms, "connections"@) == Some(ms[0].1));
    assert(obj_get(ms, "transfers"@) == Some(ms[1].1));
}

/// Writing a journey and reading it back yields its query document and its
/// route documents, in order: together with the query, route and connection
/// laws, every field of the journey survives the round trip, timestamps as
/// their printed text.
pub proof fn lemma_journey_round_trip(j: JourneyView)
    ensures
        j_get(journey_doc(j), "query"@) == Some(query_doc(j.query)),
        j_get(journey_doc(j), "routes"@) == Some(
            JsonView::Arr(Seq::new(j.routes.len(), |i: int| route_doc(j.routes[i]))),
        ),
{
    reveal_strlit("query");
    reveal_strlit("routes");
    let ms = journey_doc(j)->Obj_0;
    assert(ms.take(1).last() == ms[0]);
    assert(ms.take(2).last() == ms[1]);
    assert(ms.drop_last() =~= ms.take(1));
    assert(ms.take(1).drop_last() =~= ms.take(0));
    assert("routes"@.len() != "query"@.len());
    assert("routes"@ != "query"@);
    assert(obj_get(ms, "query"@) == obj_get(ms.take(1), "query"@));
    assert(obj_get(ms.take(1), "query"@) == Some(ms[0].1));
    assert(obj_get(ms, "query"@) == Some(ms[0].1));
    assert(obj_get(ms, "routes"@) == Some(ms[1].1));
}

} // verus!
