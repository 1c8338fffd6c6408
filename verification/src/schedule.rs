//! Reading a vehicle's stop schedule out of the lookup service's response.
//!
//! The response carries a `vehicle` designation and, under `stops.stop`, an
//! array of stop events, each holding its station under `stationinfo.@id`
//! and its scheduled times as decimal strings of epoch seconds.  Anything
//! that departs from that shape is a malformed response.

use vstd::prelude::*;
use crate::json::{Json, JsonView, j_get, as_text, sp_json, is_digit, elems_view, lemma_elems_view};
use crate::model::{StopEvent, StopEventView, VehicleSchedule, VehicleScheduleView, FetchError};
use crate::model::stops_view;
use crate::adapter::field_text;
use crate::text::str_chars;

verus! {

// ---------------------------------------------------------------------------
// Decimal epoch seconds
// ---------------------------------------------------------------------------

/// Ten to the given power.
pub open spec fn pow10(n: int) -> int
    decreases n,
{
    if n <= 0 {
        1
    } else {
        10 * pow10(n - 1)
    }
}

/// The value of a string of decimal digits.
pub open spec fn dec_val(s: Seq<char>) -> int
    decreases s.len(),
{
    if s.len() == 0 {
        0
    } else {
        dec_val(s.drop_last()) * 10 + (s.last() as u32 - '0' as u32)
    }
}

/// Whether every character is a decimal digit.
pub open spec fn all_digits(s: Seq<char>) -> bool {
    forall|i: int| 0 <= i < s.len() ==> is_digit(#[trigger] s[i])
}

/// The epoch second a schedule time field denotes: a non-empty string of at
/// most eighteen digits.
pub open spec fn epoch_of_text(s: Seq<char>) -> Option<int> {
    if 1 <= s.len() <= 18 && all_digits(s) {
        Some(dec_val(s))
    } else {
        None
    }
}

proof fn lemma_pow10_18()
    ensures
        pow10(18) == 1000000000000000000,
{
    reveal_with_fuel(pow10, 20);
}

/// The epoch second a time field denotes, if it is well-formed.
pub fn parse_epoch(t: &Vec<char>) -> (r: Option<i64>)
    ensures
        match r {
            Some(n) => epoch_of_text(t@) == Some(n as int),
            None => epoch_of_text(t@) is None,
        },
{
    if t.len() < 1 || t.len() > 18 {
        return None;
    }
    let mut acc: i64 = 0;
    let mut i: usize = 0;
    while i < t.len()
        invariant
            i <= t@.len() <= 18,
            all_digits(t@.take(i as int)),
            acc as int == dec_val(t@.take(i as int)),
            acc as int >= 0,
            (acc as int) < pow10(i as int),
        decreases t@.len() - i,
    {
        let c = t[i];
        if !('0' as u32 <= c as u32 && c as u32 <= '9' as u32) {
            proof {
                assert(!is_digit(t@[i as int]));
                assert(!all_digits(t@));
            }
            return None;
        }
        proof {
            lemma_pow10_18();
            assert(pow10(i as int) <= pow10(17)) by {
                reveal_with_fuel(pow10, 20);
            }
            assert(pow10(18) == 10 * pow10(17));
        }
        acc = acc * 10 + (c as u32 - '0' as u32) as i64;
        i = i + 1;
        proof {
            assert(t@.take(i as int).drop_last() =~= t@.take(i as int - 1));
            assert(t@.take(i as int).last() == t@[i as int - 1]);
            assert(all_digits(t@.take(i as int)));
        }
    }
    proof {
        assert(t@.take(t@.len() as int) =~= t@);
    }
    Some(acc)
}

// ---------------------------------------------------------------------------
// The response's shape
// ---------------------------------------------------------------------------

/// One stop event, read from one element of the `stops.stop` array.
pub open spec fn stop_event_of(v: JsonView) -> Option<StopEventView> {
    let station = match j_get(v, "stationinfo"@) {
        Some(si) => as_text(j_get(si, "@id"@)),
        None => None,
    };
    let arr = match field_text(v, "scheduledArrivalTime"@) {
        Some(t) => epoch_of_text(t),
        None => None,
    };
    let dep = match field_text(v, "scheduledDepartureTime"@) {
        Some(t) => epoch_of_text(t),
        None => None,
    };
    match (station, arr, dep) {
        (Some(st), Some(a), Some(d)) => Some(
            StopEventView { station: st, scheduled_arrival: a, scheduled_departure: d },
        ),
        _ => None,
    }
}

/// The stop events from position `k` on, if every one is well-formed.
pub open spec fn stop_events_of(es: Seq<JsonView>, k: int) -> Option<Seq<StopEventView>>
    decreases es.len() - k,
{
    if k < 0 || k >= es.len() {
        Some(Seq::empty())
    } else {
        match stop_event_of(es[k]) {
            Some(e) => match stop_events_of(es, k + 1) {
                Some(rest) => Some(seq![e] + rest),
                None => None,
            },
            None => None,
        }
    }
}

/// The schedule a response document denotes, if it has the expected shape.
pub open spec fn sched_of(v: JsonView) -> Option<VehicleScheduleView> {
    let veh = field_text(v, "vehicle"@);
    let stops = match j_get(v, "stops"@) {
        Some(ss) => match j_get(ss, "stop"@) {
            Some(JsonView::Arr(es)) => stop_events_of(es, 0),
            _ => None,
        },
        None => None,
    };
    match (veh, stops) {
        (Some(d), Some(st)) => Some(VehicleScheduleView { vehicle: d, stops: st }),
        _ => None,
    }
}

// ---------------------------------------------------------------------------
// The executable reader
// ---------------------------------------------------------------------------

fn ex_stop_event(v: &Json) -> (r: Option<StopEvent>)
    ensures
        match r {
            Some(e) => stop_event_of(v@) == Some(e@),
            None => stop_event_of(v@) is None,
        },
{
    let station = match v.get(&str_chars("stationinfo")) {
        Some(si) => match si.get(&str_chars("@id")) {
            Some(j) => match j {
                Json::Str(t) => Some(crate::text::chars_copy(t)),
                _ => None,
            },
            None => None,
        },
        None => None,
    };
    let station = match station {
        Some(st) => st,
        None => {
            return None;
        },
    };
    let arr = match crate::adapter::field_text_of(v, &str_chars("scheduledArrivalTime")) {
        Some(t) => parse_epoch(&t),
        None => None,
    };
    let arr = match arr {
        Some(a) => a,
        None => {
            return None;
        },
    };
    let dep = match crate::adapter::field_text_of(v, &str_chars("scheduledDepartureTime")) {
        Some(t) => parse_epoch(&t),
        None => None,
    };
    let dep = match dep {
        Some(d) => d,
        None => {
            return None;
        },
    };
    Some(StopEvent { station, scheduled_arrival: arr, scheduled_departure: dep })
}

/// Read a vehicle schedule from the text of a lookup response.  Any departure
/// from the expected shape is a malformed response.
#[verifier::loop_isolation(false)]
pub fn parse_vehicle_response(body: &Vec<char>) -> (r: Result<VehicleSchedule, FetchError>)
    ensures
        r is Ok <==> (sp_json(body@) matches Some(v) && sched_of(v) is Some),
        r matches Ok(sched) ==> sp_json(body@) matches Some(v) && sched_of(v) == Some(sched@),
        r matches Err(e) ==> e == FetchError::MalformedResponse,
{
    let doc = match crate::json::json_parse(body) {
        Some(d) => d,
        None => {
            return Err(FetchError::MalformedResponse);
        },
    };
    let veh = match crate::adapter::field_text_of(&doc, &str_chars("vehicle")) {
        Some(d) => d,
        None => {
            return Err(FetchError::MalformedResponse);
        },
    };
    let stops_json = match doc.get(&str_chars("stops")) {
        Some(ss) => match ss.get(&str_chars("stop")) {
            Some(j) => j,
            None => {
                return Err(FetchError::MalformedResponse);
            },
        },
        None => {
            return Err(FetchError::MalformedResponse);
        },
    };
    let es = match stops_json {
        Json::Arr(es) => es,
        _ => {
            return Err(FetchError::MalformedResponse);
        },
    };
    proof {
        lemma_elems_view(es@);
        assert(stops_json@ == JsonView::Arr(elems_view(es@)));
    }
    let ghost esv = elems_view(es@);
    let mut stops: Vec<StopEvent> = Vec::new();
    let mut i: usize = 0;
    while i < es.len()
        invariant
            i <= es@.len(),
            esv == elems_view(es@),
            esv.len() == es@.len(),
            forall|k: int| 0 <= k < es@.len() ==> esv[k] == #[trigger] es@[k]@,
            stops@.len() == i,
            match stop_events_of(esv, i as int) {
                Some(rest) => stop_events_of(esv, 0) == Some(stops_view(stops@) + rest),
                None => stop_events_of(esv, 0) is None,
            },
        decreases es@.len() - i,
    {
        let ghost stops0 = stops@;
        match ex_stop_event(&es[i]) {
            Some(e) => {
                stops.push(e);
            },
            None => {
                proof {
                    assert(stop_events_of(esv, i as int) is None);
                    assert(stop_events_of(esv, 0) is None);
                    assert(sched_of(doc@) is None);
                }
                return Err(FetchError::MalformedResponse);
            },
        }
        i = i + 1;
        proof {
            match stop_events_of(esv, i as int) {
                Some(rest) => {
                    assert(stop_events_of(esv, i as int - 1) == Some(
                        seq![stops@[i - 1]@] + rest,
                    ));
                    assert(stops_view(stops0) + (seq![stops@[i - 1]@] + rest) =~= stops_view(
                        stops@,
                    ) + rest);
                },
                None => {},
            }
        }
    }
    proof {
        assert(stop_events_of(esv, es@.len() as int) == Some(Seq::<StopEventView>::empty()));
        assert(stops_view(stops@) + Seq::<StopEventView>::empty() =~= stops_view(stops@));
    }
    let sched = VehicleSchedule { vehicle: veh, stops };
    proof {
        assert(sched@ =~= sched_of(sp_json(body@)->0)->0);
    }
    Ok(sched)
}

} // verus!
