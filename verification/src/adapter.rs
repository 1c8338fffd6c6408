//! The log record adapter: one raw JSON log line becomes a typed record.
//!
//! The expected shape is the trip-planning API's: `querytype`, `querytime`,
//! `user_agent` at the top; the boundary stops under `query.departureStop.@id`
//! and `query.arrivalStop.@id`; and the journey options under
//! `query.journeyoptions`, each option holding its legs under `journeys`.
//! Whatever is absent or of another type is simply left empty; only a line
//! that is not JSON at all is an error.

use vstd::prelude::*;
use crate::json::{Json, JsonView, j_get, as_text, sp_json};
use crate::json::{elems_view, lemma_elems_view};
use crate::model::{RawLeg, RawLegView, RawOption, RawOptionView, LogRecord, LogRecordView};
use crate::model::{raw_legs_view, raw_options_view, ParseError};
use crate::text::{str_chars, chars_copy};

verus! {

// ---------------------------------------------------------------------------
// What the adapter reads, mathematically
// ---------------------------------------------------------------------------

/// The text under a key of an object value, if it is a string.
pub open spec fn field_text(v: JsonView, key: Seq<char>) -> Option<Seq<char>> {
    as_text(j_get(v, key))
}

/// The stop identifier under `query.<key>.@id`.
pub open spec fn stop_id_of(v: JsonView, key: Seq<char>) -> Option<Seq<char>> {
    match j_get(v, "query"@) {
        Some(q) => match j_get(q, key) {
            Some(st) => as_text(j_get(st, "@id"@)),
            None => None,
        },
        None => None,
    }
}

/// One raw leg, read from one element of a `journeys` array.
pub open spec fn raw_leg_of(v: JsonView) -> RawLegView {
    RawLegView {
        trip: field_text(v, "trip"@),
        departure_stop: field_text(v, "departureStop"@),
        arrival_stop: field_text(v, "arrivalStop"@),
    }
}

/// The raw legs of one journey option.
pub open spec fn raw_legs_of(v: JsonView) -> Seq<RawLegView> {
    match j_get(v, "journeys"@) {
        Some(JsonView::Arr(es)) => Seq::new(es.len(), |i: int| raw_leg_of(es[i])),
        _ => Seq::empty(),
    }
}

/// The raw journey options under `query.journeyoptions`.
pub open spec fn raw_options_of(v: JsonView) -> Seq<RawOptionView> {
    match j_get(v, "query"@) {
        Some(q) => match j_get(q, "journeyoptions"@) {
            Some(JsonView::Arr(os)) => Seq::new(
                os.len(),
                |i: int| RawOptionView { legs: raw_legs_of(os[i]) },
            ),
            _ => Seq::empty(),
        },
        None => Seq::empty(),
    }
}

/// The whole record a parsed log line denotes.
pub open spec fn record_of(v: JsonView) -> LogRecordView {
    LogRecordView {
        query_type: field_text(v, "querytype"@),
        query_time: field_text(v, "querytime"@),
        user_agent: field_text(v, "user_agent"@),
        departure_stop: stop_id_of(v, "departureStop"@),
        arrival_stop: stop_id_of(v, "arrivalStop"@),
        options: raw_options_of(v),
    }
}

// ---------------------------------------------------------------------------
// The executable adapter
// ---------------------------------------------------------------------------

pub(crate) fn field_text_of(v: &Json, key: &Vec<char>) -> (r: Option<Vec<char>>)
    ensures
        match r {
            Some(t) => field_text(v@, key@) == Some(t@),
            None => field_text(v@, key@) is None,
        },
{
    match v.get(key) {
        Some(j) => match j {
            Json::Str(t) => Some(chars_copy(t)),
            _ => None,
        },
        None => None,
    }
}

fn ex_stop_id(v: &Json, key: &Vec<char>) -> (r: Option<Vec<char>>)
    ensures
        match r {
            Some(t) => stop_id_of(v@, key@) == Some(t@),
            None => stop_id_of(v@, key@) is None,
        },
{
    match v.get(&str_chars("query")) {
        Some(q) => match q.get(key) {
            Some(st) => field_text_of(st, &str_chars("@id")),
            None => None,
        },
        None => None,
    }
}

fn ex_raw_leg(v: &Json) -> (r: RawLeg)
    ensures
        r@ == raw_leg_of(v@),
{
    let r = RawLeg {
        trip: field_text_of(v, &str_chars("trip")),
        departure_stop: field_text_of(v, &str_chars("departureStop")),
        arrival_stop: field_text_of(v, &str_chars("arrivalStop")),
    };
    r
}

fn ex_raw_legs(v: &Json) -> (r: Vec<RawLeg>)
    ensures
        raw_legs_view(r@) == raw_legs_of(v@),
{
    let mut out: Vec<RawLeg> = Vec::new();
    match v.get(&str_chars("journeys")) {
        Some(j) => match j {
            Json::Arr(es) => {
                proof {
                    lemma_elems_view(es@);
                }
                let ghost target = raw_legs_of(v@);
                proof {
                    assert(target == Seq::new(
                        elems_view(es@).len(),
                        |i: int| raw_leg_of(elems_view(es@)[i]),
                    ));
                }
                let mut i: usize = 0;
                while i < es.len()
                    invariant
                        i <= es@.len(),
                        target.len() == es@.len(),
                        forall|k: int|
                            0 <= k < es@.len() ==> target[k] == raw_leg_of(#[trigger] es@[k]@),
                        out@.len() == i,
                        forall|k: int| 0 <= k < i ==> #[trigger] out@[k]@ == target[k],
                    decreases es@.len() - i,
                {
                    let leg = ex_raw_leg(&es[i]);
                    out.push(leg);
                    i = i + 1;
                }
                proof {
                    assert(raw_legs_view(out@) =~= target);
                }
                out
            },
            _ => {
                proof {
                    assert(raw_legs_view(out@) =~= raw_legs_of(v@));
                }
                out
            },
        },
        None => {
            proof {
                assert(raw_legs_view(out@) =~= raw_legs_of(v@));
            }
            out
        },
    }
}

fn ex_raw_options(v: &Json) -> (r: Vec<RawOption>)
    ensures
        raw_options_view(r@) == raw_options_of(v@),
{
    let mut out: Vec<RawOption> = Vec::new();
    let q = match v.get(&str_chars("query")) {
        Some(q) => q,
        None => {
            proof {
                assert(raw_options_view(out@) =~= raw_options_of(v@));
            }
            return out;
        },
    };
    match q.get(&str_chars("journeyoptions")) {
        Some(j) => match j {
            Json::Arr(os) => {
                proof {
                    lemma_elems_view(os@);
                }
                let ghost target = raw_options_of(v@);
                proof {
                    assert(target == Seq::new(
                        elems_view(os@).len(),
                        |i: int| RawOptionView { legs: raw_legs_of(elems_view(os@)[i]) },
                    ));
                }
                let mut i: usize = 0;
                while i < os.len()
                    invariant
                        i <= os@.len(),
                        target.len() == os@.len(),
                        forall|k: int|
                            0 <= k < os@.len() ==> target[k] == (RawOptionView {
                                legs: raw_legs_of(#[trigger] os@[k]@),
                            }),
                        out@.len() == i,
                        forall|k: int| 0 <= k < i ==> #[trigger] out@[k]@ == target[k],
                    decreases os@.len() - i,
                {
                    let legs = ex_raw_legs(&os[i]);
                    let opt = RawOption { legs };
                    proof {
                        assert(opt@ =~= target[i as int]);
                    }
                    out.push(opt);
                    i = i + 1;
                }
                proof {
                    assert(raw_options_view(out@) =~= target);
                }
                out
            },
            _ => {
                proof {
                    assert(raw_options_view(out@) =~= raw_options_of(v@));
                }
                out
            },
        },
        None => {
            proof {
                assert(raw_options_view(out@) =~= raw_options_of(v@));
            }
            out
        },
    }
}

/// Read one typed record from one parsed log document.
pub fn record_of_json(v: &Json) -> (r: LogRecord)
    ensures
        r@ == record_of(v@),
{
    let r = LogRecord {
        query_type: field_text_of(v, &str_chars("querytype")),
        query_time: field_text_of(v, &str_chars("querytime")),
        user_agent: field_text_of(v, &str_chars("user_agent")),
        departure_stop: ex_stop_id(v, &str_chars("departureStop")),
        arrival_stop: ex_stop_id(v, &str_chars("arrivalStop")),
        options: ex_raw_options(v),
    };
    proof {
        assert(r@ =~= record_of(v@));
    }
    r
}

/// Parse one raw log line.  Returns the typed record, or `InvalidJson` when
/// the line is not well-formed JSON.
pub fn parse_log_line(line: &str) -> (r: Result<LogRecord, ParseError>)
    ensures
        r is Ok <==> sp_json(line@) is Some,
        r matches Ok(rec) ==> sp_json(line@) matches Some(v) && rec@ == record_of(v),
        r matches Err(e) ==> e == ParseError::InvalidJson,
{
    let chars = str_chars(line);
    match crate::json::json_parse(&chars) {
        Some(v) => Ok(record_of_json(&v)),
        None => Err(ParseError::InvalidJson),
    }
}

/// Whether a record is one the reconstructor works on: its query type reads
/// `connections`.  Records of any other query type are ignored.
pub fn is_connections_query(r: &LogRecord) -> (b: bool)
    ensures
        b == (r@.query_type == Some("connections"@)),
{
    match &r.query_type {
        Some(t) => crate::text::chars_eq(t, &str_chars("connections")),
        None => false,
    }
}

} // verus!
