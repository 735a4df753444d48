//! The query parameter model: what a data request asks for, the query-type
//! tag that selects the remote engine's query shape, and the keyed update
//! used when a single field is edited.
//!
//! Geographic bounds are carried as the numeric text the agent extracted,
//! in order [west, south, east, north]; they are passed through unvalidated
//! and only converted to machine numbers at the engine boundary.

use vstd::prelude::*;
use crate::strutil::str_eq;

verus! {

/// The kind of remote query a request asks for.
#[derive(Debug, Clone, Copy, PartialEq, Eq, Structural)]
pub enum QueryType {
    /// Flight list (departures/arrivals with times and airports).
    Flights,
    /// State vector time series (position, altitude, speed over time).
    Trajectory,
    /// Raw ADS-B/Mode S messages for decoding.
    Rawdata,
}

impl QueryType {
    /// The lowercase label used on the wire and in the UI.
    pub fn label(&self) -> (r: &'static str)
        ensures
            *self == QueryType::Flights ==> r@ == "flights"@,
            *self == QueryType::Trajectory ==> r@ == "trajectory"@,
            *self == QueryType::Rawdata ==> r@ == "rawdata"@,
    {
        match self {
            QueryType::Flights => "flights",
            QueryType::Trajectory => "trajectory",
            QueryType::Rawdata => "rawdata",
        }
    }

    /// The label used in run logs.
    pub fn run_label(&self) -> (r: &'static str)
        ensures
            *self == QueryType::Flights ==> r@ == "flight list"@,
            *self == QueryType::Trajectory ==> r@ == "trajectory"@,
            *self == QueryType::Rawdata ==> r@ == "raw data"@,
    {
        match self {
            QueryType::Flights => "flight list",
            QueryType::Trajectory => "trajectory",
            QueryType::Rawdata => "raw data",
        }
    }

    /// The client method name used when a query preview is rendered.
    pub fn method_name(&self) -> (r: &'static str)
        ensures
            *self == QueryType::Flights ==> r@ == "flightlist"@,
            *self == QueryType::Trajectory ==> r@ == "history"@,
            *self == QueryType::Rawdata ==> r@ == "rawdata"@,
    {
        match self {
            QueryType::Flights => "flightlist",
            QueryType::Trajectory => "history",
            QueryType::Rawdata => "rawdata",
        }
    }

    /// Reads a query type from its lowercase label, trying the labels in a
    /// fixed order.
    pub fn from_label(s: &str) -> (r: Option<QueryType>)
        ensures
            r == (if s@ == "trajectory"@ {
                Some(QueryType::Trajectory)
            } else if s@ == "flights"@ {
                Some(QueryType::Flights)
            } else if s@ == "rawdata"@ {
                Some(QueryType::Rawdata)
            } else {
                None::<QueryType>
            }),
    {
        if str_eq(s, "trajectory") {
            Some(QueryType::Trajectory)
        } else if str_eq(s, "flights") {
            Some(QueryType::Flights)
        } else if str_eq(s, "rawdata") {
            Some(QueryType::Rawdata)
        } else {
            None
        }
    }
}

impl Default for QueryType {
    /// The default query type is an explicit choice: a flight list.
    fn default() -> (r: Self)
        ensures
            r == QueryType::Flights,
    {
        QueryType::Flights
    }
}

/// A rectangular geographic bound, each side as numeric text.
#[derive(Debug, Clone)]
pub struct Bounds {
    pub west: String,
    pub south: String,
    pub east: String,
    pub north: String,
}

/// The mathematical value of a `Bounds`: the four sides' character
/// sequences.
#[verifier::ext_equal]
pub struct BoundsModel {
    pub west: Seq<char>,
    pub south: Seq<char>,
    pub east: Seq<char>,
    pub north: Seq<char>,
}

impl View for Bounds {
    type V = BoundsModel;

    open spec fn view(&self) -> BoundsModel {
        BoundsModel {
            west: self.west@,
            south: self.south@,
            east: self.east@,
            north: self.north@,
        }
    }
}

/// The view of an optional owned string: the characters, if present.
pub open spec fn opt_str_view(o: Option<String>) -> Option<Seq<char>> {
    match o {
        Some(s) => Some(s@),
        None => None,
    }
}

/// Parameters of a data request. Every field is optional; an unset field
/// places no constraint on the query.
#[derive(Debug, Clone)]
pub struct QueryParams {
    pub icao24: Option<String>,
    pub start: Option<String>,
    pub stop: Option<String>,
    pub callsign: Option<String>,
    pub departure_airport: Option<String>,
    pub arrival_airport: Option<String>,
    pub airport: Option<String>,
    pub limit: Option<u32>,
    pub bounds: Option<Bounds>,
}

/// The mathematical value of a `QueryParams`.
#[verifier::ext_equal]
pub struct ParamsModel {
    pub icao24: Option<Seq<char>>,
    pub start: Option<Seq<char>>,
    pub stop: Option<Seq<char>>,
    pub callsign: Option<Seq<char>>,
    pub departure_airport: Option<Seq<char>>,
    pub arrival_airport: Option<Seq<char>>,
    pub airport: Option<Seq<char>>,
    pub limit: Option<u32>,
    pub bounds: Option<BoundsModel>,
}

impl View for QueryParams {
    type V = ParamsModel;

    open spec fn view(&self) -> ParamsModel {
        ParamsModel {
            icao24: opt_str_view(self.icao24),
            start: opt_str_view(self.start),
            stop: opt_str_view(self.stop),
            callsign: opt_str_view(self.callsign),
            departure_airport: opt_str_view(self.departure_airport),
            arrival_airport: opt_str_view(self.arrival_airport),
            airport: opt_str_view(self.airport),
            limit: self.limit,
            bounds: match self.bounds {
                Some(b) => Some(b@),
                None => None,
            },
        }
    }
}

/// The model of a request with every field unset.
pub open spec fn empty_params() -> ParamsModel {
    ParamsModel {
        icao24: None,
        start: None,
        stop: None,
        callsign: None,
        departure_airport: None,
        arrival_airport: None,
        airport: None,
        limit: None,
        bounds: None,
    }
}

impl QueryParams {
    /// A request with every field unset.
    pub fn new() -> (r: Self)
        ensures
            r@ == empty_params(),
    {
        let r = QueryParams {
            icao24: None,
            start: None,
            stop: None,
            callsign: None,
            departure_airport: None,
            arrival_airport: None,
            airport: None,
            limit: None,
            bounds: None,
        };
        proof {
            assert(r@ =~= empty_params());
        }
        r
    }
}

/// A single field update, as handed over by the command surface.
#[derive(Debug, Clone)]
pub enum ParamValue {
    /// An explicit null; it clears a string field or the bounds.
    Null,
    /// A text value.
    Text(String),
    /// A non-negative whole number.
    Count(u64),
    /// An array of numeric texts.
    Numbers(Vec<String>),
}

/// The mathematical value of a `ParamValue`.
#[verifier::ext_equal]
pub enum ParamValueModel {
    Null,
    Text(Seq<char>),
    Count(u64),
    Numbers(Seq<Seq<char>>),
}

impl View for ParamValue {
    type V = ParamValueModel;

    open spec fn view(&self) -> ParamValueModel {
        match self {
            ParamValue::Null => ParamValueModel::Null,
            ParamValue::Text(s) => ParamValueModel::Text(s@),
            ParamValue::Count(n) => ParamValueModel::Count(*n),
            ParamValue::Numbers(v) => ParamValueModel::Numbers(v.deep_view()),
        }
    }
}

/// What a string-valued field becomes under an update: the text if the
/// update carries one, otherwise unset.
pub open spec fn text_of(v: ParamValueModel) -> Option<Seq<char>> {
    match v {
        ParamValueModel::Text(s) => Some(s),
        _ => None,
    }
}

/// What the result limit becomes under an update: the count reduced to
/// 32 bits if the update carries one, otherwise unset.
pub open spec fn count_of(v: ParamValueModel) -> Option<u32> {
    match v {
        ParamValueModel::Count(n) => Some((n % 0x1_0000_0000) as u32),
        _ => None,
    }
}

/// What the bounds become under an update: cleared on null, replaced when
/// exactly four numbers arrive, otherwise left as they were.
pub open spec fn bounds_of(v: ParamValueModel, cur: Option<BoundsModel>) -> Option<BoundsModel> {
    match v {
        ParamValueModel::Null => None,
        ParamValueModel::Numbers(a) => if a.len() == 4 {
            Some(BoundsModel { west: a[0], south: a[1], east: a[2], north: a[3] })
        } else {
            cur
        },
        _ => cur,
    }
}

/// The effect of one keyed update on a request, or `None` for an unknown
/// key.
pub open spec fn spec_set_param(p: ParamsModel, key: Seq<char>, v: ParamValueModel) -> Option<
    ParamsModel,
> {
    if key == "icao24"@ {
        Some(ParamsModel { icao24: text_of(v), ..p })
    } else if key == "start"@ {
        Some(ParamsModel { start: text_of(v), ..p })
    } else if key == "stop"@ {
        Some(ParamsModel { stop: text_of(v), ..p })
    } else if key == "callsign"@ {
        Some(ParamsModel { callsign: text_of(v), ..p })
    } else if key == "departure_airport"@ {
        Some(ParamsModel { departure_airport: text_of(v), ..p })
    } else if key == "arrival_airport"@ {
        Some(ParamsModel { arrival_airport: text_of(v), ..p })
    } else if key == "airport"@ {
        Some(ParamsModel { airport: text_of(v), ..p })
    } else if key == "limit"@ {
        Some(ParamsModel { limit: count_of(v), ..p })
    } else if key == "bounds"@ {
        Some(ParamsModel { bounds: bounds_of(v, p.bounds), ..p })
    } else {
        None
    }
}

fn value_text(v: ParamValue) -> (r: Option<String>)
    ensures
        opt_str_view(r) == text_of(v@),
{
    match v {
        ParamValue::Text(s) => Some(s),
        _ => None,
    }
}

impl QueryParams {
    /// Applies one keyed field update, as when a single entry is edited in
    /// the request form. An unknown key is rejected and changes nothing.
    pub fn set_param(&mut self, key: &str, value: ParamValue) -> (r: Result<(), String>)
        ensures
            match spec_set_param(old(self)@, key@, value@) {
                Some(m) => r is Ok && final(self)@ == m,
                None => final(self)@ == old(self)@ && (r matches Err(e) && e@
                    == "Unknown parameter: "@ + key@),
            },
    {
        let ghost v0 = value@;
        if str_eq(key, "icao24") {
            self.icao24 = value_text(value);
            proof { assert(self@ =~= spec_set_param(old(self)@, key@, v0)->Some_0); }
            Ok(())
        } else if str_eq(key, "start") {
            self.start = value_text(value);
            proof { assert(self@ =~= spec_set_param(old(self)@, key@, v0)->Some_0); }
            Ok(())
        } else if str_eq(key, "stop") {
            self.stop = value_text(value);
            proof { assert(self@ =~= spec_set_param(old(self)@, key@, v0)->Some_0); }
            Ok(())
        } else if str_eq(key, "callsign") {
            self.callsign = value_text(value);
            proof { assert(self@ =~= spec_set_param(old(self)@, key@, v0)->Some_0); }
            Ok(())
        } else if str_eq(key, "departure_airport") {
            self.departure_airport = value_text(value);
            proof { assert(self@ =~= spec_set_param(old(self)@, key@, v0)->Some_0); }
            Ok(())
        } else if str_eq(key, "arrival_airport") {
            self.arrival_airport = value_text(value);
            proof { assert(self@ =~= spec_set_param(old(self)@, key@, v0)->Some_0); }
            Ok(())
        } else if str_eq(key, "airport") {
            self.airport = value_text(value);
            proof { assert(self@ =~= spec_set_param(old(self)@, key@, v0)->Some_0); }
            Ok(())
        } else if str_eq(key, "limit") {
            self.limit = match value {
                ParamValue::Count(n) => Some((n % 0x1_0000_0000) as u32),
                _ => None,
            };
            proof { assert(self@ =~= spec_set_param(old(self)@, key@, v0)->Some_0); }
            Ok(())
        } else if str_eq(key, "bounds") {
            match value {
                ParamValue::Null => {
                    self.bounds = None;
                },
                ParamValue::Numbers(a) => {
                    if a.len() == 4 {
                        self.bounds = Some(
                            Bounds {
                                west: a[0].clone(),
                                south: a[1].clone(),
                                east: a[2].clone(),
                                north: a[3].clone(),
                            },
                        );
                    }
                },
                _ => {},
            }
            proof { assert(self@ =~= spec_set_param(old(self)@, key@, v0)->Some_0); }
            Ok(())
        } else {
            let msg = String::from_str("Unknown parameter: ").concat(key);
            Err(msg)
        }
    }
}

} // verus!
