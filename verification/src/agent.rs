//! The natural-language query agent's text work: finding the JSON object
//! in raw model output, reading it into loosely-typed fields, and turning
//! those fields into a validated request.
//!
//! The object scanner looks for the first brace pair with no braces
//! inside, so an object embedding another object is not found whole; a
//! flat object followed by trailing prose is isolated correctly. This is a
//! known structural limit of the extraction step, kept deliberately.

use vstd::prelude::*;
use crate::clock::local_date_time;
use crate::json::{
    pairs_view, spec_parse_object, JsonScalar, JsonValue, SpecScalar, SpecValue, parse_object,
};
use crate::llm::{LlmError, LlmErrorModel};
use crate::params::{
    opt_str_view, Bounds, BoundsModel, ParamsModel, QueryParams, QueryType,
};
use crate::strutil::{all_digits, digits_val, parse_digits_bounded, str_eq};

verus! {

/// The index of the first opening brace at or after `k`, or the length if
/// there is none.
pub open spec fn spec_find_open(s: Seq<char>, k: int) -> int
    decreases s.len() - k,
{
    if k < 0 {
        -1
    } else if k >= s.len() {
        s.len() as int
    } else if s[k] == '{' {
        k
    } else {
        spec_find_open(s, k + 1)
    }
}

/// The index of the first brace of either kind at or after `k`, or the
/// length if there is none.
pub open spec fn spec_find_brace(s: Seq<char>, k: int) -> int
    decreases s.len() - k,
{
    if k < 0 {
        -1
    } else if k >= s.len() {
        s.len() as int
    } else if s[k] == '{' || s[k] == '}' {
        k
    } else {
        spec_find_brace(s, k + 1)
    }
}

/// The first brace pair with no brace between its ends, searching from
/// `k`: the opening and closing index.
pub open spec fn spec_find_span(s: Seq<char>, k: int) -> Option<(int, int)>
    decreases s.len() - k,
{
    let i = spec_find_open(s, k);
    if 0 <= i < s.len() {
        let j = spec_find_brace(s, i + 1);
        if 0 <= j < s.len() {
            if s[j] == '}' {
                Some((i, j))
            } else if k < j <= s.len() {
                spec_find_span(s, j)
            } else {
                None
            }
        } else {
            None
        }
    } else {
        None
    }
}

/// The extracted object text: the first non-nested brace pair, ends
/// inclusive.
pub open spec fn spec_extract(s: Seq<char>) -> Option<Seq<char>> {
    match spec_find_span(s, 0) {
        Some(p) => Some(s.subrange(p.0, p.1 + 1)),
        None => None,
    }
}

fn find_open(s: &str, k: usize, n: usize) -> (r: usize)
    requires
        n == s@.len(),
        k <= n,
    ensures
        k <= r <= n,
        r as int == spec_find_open(s@, k as int),
        r < n ==> s@[r as int] == '{',
    decreases n - k,
{
    if k >= n {
        return k;
    }
    if s.get_char(k) == '{' {
        return k;
    }
    find_open(s, k + 1, n)
}

fn find_brace(s: &str, k: usize, n: usize) -> (r: usize)
    requires
        n == s@.len(),
        k <= n,
    ensures
        k <= r <= n,
        r as int == spec_find_brace(s@, k as int),
    decreases n - k,
{
    if k >= n {
        return k;
    }
    let c = s.get_char(k);
    if c == '{' || c == '}' {
        return k;
    }
    find_brace(s, k + 1, n)
}

fn find_span(s: &str, k: usize, n: usize) -> (r: Option<(usize, usize)>)
    requires
        n == s@.len(),
        k <= n,
    ensures
        match r {
            Some(p) => p.0 < p.1 < n && spec_find_span(s@, k as int) == Some(
                (p.0 as int, p.1 as int),
            ),
            None => spec_find_span(s@, k as int) is None,
        },
    decreases n - k,
{
    let i = find_open(s, k, n);
    if i >= n {
        return None;
    }
    let j = find_brace(s, i + 1, n);
    if j >= n {
        return None;
    }
    if s.get_char(j) == '}' {
        Some((i, j))
    } else {
        find_span(s, j, n)
    }
}

/// Isolates the first non-nested brace pair in the model's raw output, or
/// nothing when no such pair exists.
pub fn extract_json(s: &str) -> (r: Option<String>)
    ensures
        match r {
            Some(t) => spec_extract(s@) == Some(t@),
            None => spec_extract(s@) is None,
        },
{
    let n = s.unicode_len();
    match find_span(s, 0, n) {
        Some((i, j)) => Some(s.substring_char(i, j + 1).to_owned()),
        None => None,
    }
}

/// The result of parsing a natural-language query: what to run, a short
/// human-readable hint, and the extracted parameters.
#[derive(Debug, Clone)]
pub struct ParsedQuery {
    pub query_type: QueryType,
    pub hint: String,
    pub params: QueryParams,
}

/// The mathematical value of a `ParsedQuery`.
#[verifier::ext_equal]
pub struct PqModel {
    pub query_type: QueryType,
    pub hint: Seq<char>,
    pub params: ParamsModel,
}

impl View for ParsedQuery {
    type V = PqModel;

    open spec fn view(&self) -> PqModel {
        PqModel { query_type: self.query_type, hint: self.hint@, params: self.params@ }
    }
}

/// The canned hint used when the model supplies none.
pub open spec fn default_hint(qt: QueryType) -> Seq<char> {
    match qt {
        QueryType::Trajectory => "Download trajectory data"@,
        QueryType::Flights => "Download flight list"@,
        QueryType::Rawdata => "Download raw ADS-B messages"@,
    }
}

/// The canned hint for a query type.
pub fn default_hint_str(qt: QueryType) -> (r: String)
    ensures
        r@ == default_hint(qt),
{
    match qt {
        QueryType::Trajectory => String::from_str("Download trajectory data"),
        QueryType::Flights => String::from_str("Download flight list"),
        QueryType::Rawdata => String::from_str("Download raw ADS-B messages"),
    }
}

/// The fixed prompt with the current time and the user's text put in.
pub open spec fn spec_prompt(time: Seq<char>, query: Seq<char>) -> Seq<char> {
    "You turn one user request about flight data into one JSON object.\nAnswer with a single flat JSON object and nothing else.\nIts fields: status (\"ok\" or \"unclear\"), reason, query_type (\"flights\", \"trajectory\" or \"rawdata\"), hint, icao24, start, stop, callsign, departure_airport, arrival_airport, airport, limit, bounds (as [west, south, east, north]).\nTimes are written YYYY-MM-DD HH:MM:SS. The current local time is "@
        + time + ".\nThe user's request is: "@ + query
}

/// Builds the prompt from its parts.
pub fn build_prompt(user_query: &str, current_time: &str) -> (r: String)
    ensures
        r@ == spec_prompt(current_time@, user_query@),
{
    String::from_str(
        "You turn one user request about flight data into one JSON object.\nAnswer with a single flat JSON object and nothing else.\nIts fields: status (\"ok\" or \"unclear\"), reason, query_type (\"flights\", \"trajectory\" or \"rawdata\"), hint, icao24, start, stop, callsign, departure_airport, arrival_airport, airport, limit, bounds (as [west, south, east, north]).\nTimes are written YYYY-MM-DD HH:MM:SS. The current local time is ",
    ).concat(current_time).concat(".\nThe user's request is: ").concat(user_query)
}

/// Builds the prompt for the wall clock's current local time, so that
/// relative phrases resolve to the user's day boundaries.
pub fn agent_prompt(user_query: &str) -> (r: String)
    ensures
        exists|t: Seq<char>| t.len() >= 19 && r@ == #[trigger] spec_prompt(t, user_query@),
{
    let now = local_date_time();
    build_prompt(user_query, now.as_str())
}

/// The loosely-typed fields read from the model's object. Unknown keys
/// are ignored; missing optional fields default.
#[derive(Debug, Clone)]
pub struct ParsedParams {
    pub status: String,
    pub reason: Option<String>,
    pub query_type: Option<QueryType>,
    pub hint: Option<String>,
    pub icao24: Option<String>,
    pub start: Option<String>,
    pub stop: Option<String>,
    pub callsign: Option<String>,
    pub departure_airport: Option<String>,
    pub arrival_airport: Option<String>,
    pub airport: Option<String>,
    pub limit: Option<u32>,
    pub bounds: Option<Vec<String>>,
    pub time_buffer: Option<i64>,
}

/// The mathematical value of a `ParsedParams`.
#[verifier::ext_equal]
pub struct FieldsModel {
    pub status: Seq<char>,
    pub reason: Option<Seq<char>>,
    pub query_type: Option<QueryType>,
    pub hint: Option<Seq<char>>,
    pub icao24: Option<Seq<char>>,
    pub start: Option<Seq<char>>,
    pub stop: Option<Seq<char>>,
    pub callsign: Option<Seq<char>>,
    pub departure_airport: Option<Seq<char>>,
    pub arrival_airport: Option<Seq<char>>,
    pub airport: Option<Seq<char>>,
    pub limit: Option<u32>,
    pub bounds: Option<Seq<Seq<char>>>,
    pub time_buffer: Option<i64>,
}

impl View for ParsedParams {
    type V = FieldsModel;

    open spec fn view(&self) -> FieldsModel {
        FieldsModel {
            status: self.status@,
            reason: opt_str_view(self.reason),
            query_type: self.query_type,
            hint: opt_str_view(self.hint),
            icao24: opt_str_view(self.icao24),
            start: opt_str_view(self.start),
            stop: opt_str_view(self.stop),
            callsign: opt_str_view(self.callsign),
            departure_airport: opt_str_view(self.departure_airport),
            arrival_airport: opt_str_view(self.arrival_airport),
            airport: opt_str_view(self.airport),
            limit: self.limit,
            bounds: match self.bounds {
                Some(b) => Some(b.deep_view()),
                None => None,
            },
            time_buffer: self.time_buffer,
        }
    }
}

/// Reading a required string field: a string succeeds, anything else
/// (null too) is a shape mismatch.
pub open spec fn as_req_string(v: SpecValue) -> Option<Seq<char>> {
    match v {
        SpecValue::Scalar(SpecScalar::Str(s)) => Some(s),
        _ => None,
    }
}

/// Reading an optional string field: a string or null succeeds.
pub open spec fn as_opt_string(v: SpecValue) -> Option<Option<Seq<char>>> {
    match v {
        SpecValue::Scalar(SpecScalar::Str(s)) => Some(Some(s)),
        SpecValue::Scalar(SpecScalar::Null) => Some(None),
        _ => None,
    }
}

/// Reading the query-type field: one of the three lowercase labels, or
/// null.
pub open spec fn as_opt_qtype(v: SpecValue) -> Option<Option<QueryType>> {
    match v {
        SpecValue::Scalar(SpecScalar::Str(s)) => if s == "trajectory"@ {
            Some(Some(QueryType::Trajectory))
        } else if s == "flights"@ {
            Some(Some(QueryType::Flights))
        } else if s == "rawdata"@ {
            Some(Some(QueryType::Rawdata))
        } else {
            None
        },
        SpecValue::Scalar(SpecScalar::Null) => Some(None),
        _ => None,
    }
}

/// Reading the result limit: a plain unsigned integer token that fits in
/// 32 bits, or null.
pub open spec fn as_opt_u32(v: SpecValue) -> Option<Option<u32>> {
    match v {
        SpecValue::Scalar(SpecScalar::Num(t)) => if t.len() > 0 && all_digits(t) && digits_val(t)
            <= u32::MAX {
            Some(Some(digits_val(t) as u32))
        } else {
            None
        },
        SpecValue::Scalar(SpecScalar::Null) => Some(None),
        _ => None,
    }
}

/// Reading the time buffer: a plain signed integer token in 64-bit range,
/// or null.
pub open spec fn as_opt_i64(v: SpecValue) -> Option<Option<i64>> {
    match v {
        SpecValue::Scalar(SpecScalar::Num(t)) => if t.len() > 0 && t[0] == '-' {
            let d = t.subrange(1, t.len() as int);
            if d.len() > 0 && all_digits(d) && digits_val(d) <= 0x8000000000000000 {
                Some(Some((-digits_val(d)) as i64))
            } else {
                None
            }
        } else if t.len() > 0 && all_digits(t) && digits_val(t) <= i64::MAX {
            Some(Some(digits_val(t) as i64))
        } else {
            None
        },
        SpecValue::Scalar(SpecScalar::Null) => Some(None),
        _ => None,
    }
}

/// The raw token of a numeric scalar.
pub open spec fn num_token(e: SpecScalar) -> Seq<char> {
    match e {
        SpecScalar::Num(t) => t,
        _ => Seq::empty(),
    }
}

/// Reading the bounds field: an array whose elements are all numbers
/// (kept as raw tokens), or null.
pub open spec fn as_opt_nums(v: SpecValue) -> Option<Option<Seq<Seq<char>>>> {
    match v {
        SpecValue::Arr(elems) => if forall|k: int| 0 <= k < elems.len() ==> (#[trigger] elems[k])
            is Num {
            Some(Some(Seq::new(elems.len(), |k: int| num_token(elems[k]))))
        } else {
            None
        },
        SpecValue::Scalar(SpecScalar::Null) => Some(None),
        _ => None,
    }
}

/// How many members of the object use this key.
pub open spec fn count_key(ps: Seq<(Seq<char>, SpecValue)>, key: Seq<char>) -> int
    decreases ps.len(),
{
    if ps.len() == 0 {
        0
    } else {
        (if ps[0].0 == key {
            1int
        } else {
            0int
        }) + count_key(ps.drop_first(), key)
    }
}

/// The value at the first member using this key (meaningful only when the
/// key occurs).
pub open spec fn first_val(ps: Seq<(Seq<char>, SpecValue)>, key: Seq<char>) -> SpecValue
    decreases ps.len(),
{
    if ps.len() == 0 {
        arbitrary()
    } else if ps[0].0 == key {
        ps[0].1
    } else {
        first_val(ps.drop_first(), key)
    }
}

proof fn lemma_count_split(ps: Seq<(Seq<char>, SpecValue)>, i: int, key: Seq<char>)
    requires
        0 <= i <= ps.len(),
    ensures
        count_key(ps, key) == count_key(ps.subrange(0, i), key) + count_key(
            ps.subrange(i, ps.len() as int),
            key,
        ),
    decreases i,
{
    if i == 0 {
        assert(ps.subrange(0, 0) =~= Seq::<(Seq<char>, SpecValue)>::empty());
        assert(ps.subrange(0, ps.len() as int) =~= ps);
    } else {
        let d = ps.drop_first();
        lemma_count_split(d, i - 1, key);
        assert(ps.subrange(0, i).drop_first() =~= d.subrange(0, i - 1));
        assert(ps.subrange(i, ps.len() as int) =~= d.subrange(i - 1, d.len() as int));
        assert(ps.subrange(0, i)[0] == ps[0]);
    }
}

proof fn lemma_first_prefix(ps: Seq<(Seq<char>, SpecValue)>, i: int, key: Seq<char>)
    requires
        0 <= i <= ps.len(),
        count_key(ps.subrange(0, i), key) >= 1,
    ensures
        first_val(ps, key) == first_val(ps.subrange(0, i), key),
    decreases i,
{
    let p = ps.subrange(0, i);
    assert(p.len() == i);
    if ps[0].0 == key {
        assert(p[0] == ps[0]);
    } else {
        assert(p[0] == ps[0]);
        let d = ps.drop_first();
        assert(p.drop_first() =~= d.subrange(0, i - 1));
        assert(count_key(p, key) == count_key(p.drop_first(), key));
        lemma_first_prefix(d, i - 1, key);
    }
}

proof fn lemma_count_nonneg(ps: Seq<(Seq<char>, SpecValue)>, key: Seq<char>)
    ensures
        count_key(ps, key) >= 0,
    decreases ps.len(),
{
    if ps.len() > 0 {
        lemma_count_nonneg(ps.drop_first(), key);
    }
}

proof fn lemma_first_at(q: Seq<(Seq<char>, SpecValue)>, key: Seq<char>)
    requires
        q.len() >= 1,
        count_key(q.subrange(0, q.len() - 1), key) == 0,
        q.last().0 == key,
    ensures
        first_val(q, key) == q.last().1,
    decreases q.len(),
{
    let p = q.subrange(0, q.len() - 1);
    if q.len() == 1 {
        assert(q[0] == q.last());
    } else {
        assert(p[0] == q[0]);
        lemma_count_nonneg(p.drop_first(), key);
        assert(count_key(p, key) == (if p[0].0 == key { 1int } else { 0int }) + count_key(
            p.drop_first(),
            key,
        ));
        assert(q[0].0 != key);
        let d = q.drop_first();
        assert(d.subrange(0, d.len() - 1) =~= p.drop_first());
        assert(d.last() == q.last());
        lemma_first_at(d, key);
    }
}

/// An optional string field is acceptable: at most one occurrence, and
/// that one reads as a string or null.
pub open spec fn opt_ok_str(ps: Seq<(Seq<char>, SpecValue)>, key: Seq<char>) -> bool {
    count_key(ps, key) <= 1 && (count_key(ps, key) == 1 ==> as_opt_string(first_val(ps, key))
        is Some)
}

pub open spec fn opt_ok_qtype(ps: Seq<(Seq<char>, SpecValue)>, key: Seq<char>) -> bool {
    count_key(ps, key) <= 1 && (count_key(ps, key) == 1 ==> as_opt_qtype(first_val(ps, key))
        is Some)
}

pub open spec fn opt_ok_u32(ps: Seq<(Seq<char>, SpecValue)>, key: Seq<char>) -> bool {
    count_key(ps, key) <= 1 && (count_key(ps, key) == 1 ==> as_opt_u32(first_val(ps, key))
        is Some)
}

pub open spec fn opt_ok_i64(ps: Seq<(Seq<char>, SpecValue)>, key: Seq<char>) -> bool {
    count_key(ps, key) <= 1 && (count_key(ps, key) == 1 ==> as_opt_i64(first_val(ps, key))
        is Some)
}

pub open spec fn opt_ok_nums(ps: Seq<(Seq<char>, SpecValue)>, key: Seq<char>) -> bool {
    count_key(ps, key) <= 1 && (count_key(ps, key) == 1 ==> as_opt_nums(first_val(ps, key))
        is Some)
}

pub open spec fn get_opt_str(ps: Seq<(Seq<char>, SpecValue)>, key: Seq<char>) -> Option<Seq<char>> {
    if count_key(ps, key) == 1 {
        as_opt_string(first_val(ps, key))->Some_0
    } else {
        None
    }
}

pub open spec fn get_opt_qtype(ps: Seq<(Seq<char>, SpecValue)>, key: Seq<char>) -> Option<
    QueryType,
> {
    if count_key(ps, key) == 1 {
        as_opt_qtype(first_val(ps, key))->Some_0
    } else {
        None
    }
}

pub open spec fn get_opt_u32(ps: Seq<(Seq<char>, SpecValue)>, key: Seq<char>) -> Option<u32> {
    if count_key(ps, key) == 1 {
        as_opt_u32(first_val(ps, key))->Some_0
    } else {
        None
    }
}

pub open spec fn get_opt_i64(ps: Seq<(Seq<char>, SpecValue)>, key: Seq<char>) -> Option<i64> {
    if count_key(ps, key) == 1 {
        as_opt_i64(first_val(ps, key))->Some_0
    } else {
        None
    }
}

pub open spec fn get_opt_nums(ps: Seq<(Seq<char>, SpecValue)>, key: Seq<char>) -> Option<
    Seq<Seq<char>>,
> {
    if count_key(ps, key) == 1 {
        as_opt_nums(first_val(ps, key))->Some_0
    } else {
        None
    }
}

/// Whether the object's members fit the expected shape: the status field
/// exactly once as a string, every other known field at most once with
/// its expected type, unknown fields free.
pub open spec fn fields_ok(ps: Seq<(Seq<char>, SpecValue)>) -> bool {
    &&& count_key(ps, "status"@) == 1
    &&& as_req_string(first_val(ps, "status"@)) is Some
    &&& opt_ok_str(ps, "reason"@)
    &&& opt_ok_qtype(ps, "query_type"@)
    &&& opt_ok_str(ps, "hint"@)
    &&& opt_ok_str(ps, "icao24"@)
    &&& opt_ok_str(ps, "start"@)
    &&& opt_ok_str(ps, "stop"@)
    &&& opt_ok_str(ps, "callsign"@)
    &&& opt_ok_str(ps, "departure_airport"@)
    &&& opt_ok_str(ps, "arrival_airport"@)
    &&& opt_ok_str(ps, "airport"@)
    &&& opt_ok_u32(ps, "limit"@)
    &&& opt_ok_nums(ps, "bounds"@)
    &&& opt_ok_i64(ps, "time_buffer"@)
}

/// The fields read from the object's members, or nothing when the shape
/// does not fit.
pub open spec fn spec_map_fields(ps: Seq<(Seq<char>, SpecValue)>) -> Option<FieldsModel> {
    if fields_ok(ps) {
        Some(FieldsModel {
            status: as_req_string(first_val(ps, "status"@))->Some_0,
            reason: get_opt_str(ps, "reason"@),
            query_type: get_opt_qtype(ps, "query_type"@),
            hint: get_opt_str(ps, "hint"@),
            icao24: get_opt_str(ps, "icao24"@),
            start: get_opt_str(ps, "start"@),
            stop: get_opt_str(ps, "stop"@),
            callsign: get_opt_str(ps, "callsign"@),
            departure_airport: get_opt_str(ps, "departure_airport"@),
            arrival_airport: get_opt_str(ps, "arrival_airport"@),
            airport: get_opt_str(ps, "airport"@),
            limit: get_opt_u32(ps, "limit"@),
            bounds: get_opt_nums(ps, "bounds"@),
            time_buffer: get_opt_i64(ps, "time_buffer"@),
        })
    } else {
        None
    }
}

proof fn lemma_push_effect(full: Seq<(Seq<char>, SpecValue)>, i: int, k: Seq<char>)
    requires
        0 <= i < full.len(),
    ensures
        count_key(full.subrange(0, i + 1), k) == count_key(full.subrange(0, i), k) + (if full[i].0
            == k {
            1int
        } else {
            0int
        }),
        count_key(full.subrange(0, i), k) >= 1 ==> first_val(full.subrange(0, i + 1), k)
            == first_val(full.subrange(0, i), k),
        count_key(full.subrange(0, i), k) == 0 && full[i].0 == k ==> first_val(
            full.subrange(0, i + 1),
            k,
        ) == full[i].1,
{
    let p1 = full.subrange(0, i + 1);
    lemma_count_split(p1, i, k);
    assert(p1.subrange(0, i) =~= full.subrange(0, i));
    let s1 = p1.subrange(i, i + 1);
    assert(s1.len() == 1 && s1[0] == full[i]);
    assert(s1.drop_first() =~= Seq::<(Seq<char>, SpecValue)>::empty());
    assert(count_key(s1.drop_first(), k) == 0);
    assert(count_key(s1, k) == (if s1[0].0 == k {
        1int
    } else {
        0int
    }) + count_key(s1.drop_first(), k));
    if count_key(full.subrange(0, i), k) >= 1 {
        lemma_first_prefix(p1, i, k);
    }
    if count_key(full.subrange(0, i), k) == 0 && full[i].0 == k {
        assert(p1.subrange(0, p1.len() - 1) =~= full.subrange(0, i));
        assert(p1.last() == full[i]);
        lemma_first_at(p1, k);
    }
}

proof fn lemma_key_hit(full: Seq<(Seq<char>, SpecValue)>, i: int, k: Seq<char>)
    requires
        0 <= i < full.len(),
        full[i].0 == k,
        count_key(full.subrange(0, i), k) == 0,
    ensures
        count_key(full, k) >= 1,
        count_key(full, k) == 1 ==> first_val(full, k) == full[i].1,
{
    lemma_push_effect(full, i, k);
    lemma_count_split(full, i + 1, k);
    lemma_count_nonneg(full.subrange(i + 1, full.len() as int), k);
    if count_key(full, k) == 1 {
        lemma_first_prefix(full, i + 1, k);
    }
}

proof fn lemma_key_dup(full: Seq<(Seq<char>, SpecValue)>, i: int, k: Seq<char>)
    requires
        0 <= i < full.len(),
        full[i].0 == k,
        count_key(full.subrange(0, i), k) == 1,
    ensures
        count_key(full, k) >= 2,
{
    lemma_push_effect(full, i, k);
    lemma_count_split(full, i + 1, k);
    lemma_count_nonneg(full.subrange(i + 1, full.len() as int), k);
}

fn read_req_string(v: &JsonValue) -> (r: Option<String>)
    ensures
        match r {
            Some(s) => as_req_string(v@) == Some(s@),
            None => as_req_string(v@) is None,
        },
{
    match v {
        JsonValue::Scalar(JsonScalar::Str(s)) => Some(s.clone()),
        _ => None,
    }
}

fn read_opt_string(v: &JsonValue) -> (r: Option<Option<String>>)
    ensures
        match r {
            Some(o) => as_opt_string(v@) == Some(opt_str_view(o)),
            None => as_opt_string(v@) is None,
        },
{
    match v {
        JsonValue::Scalar(JsonScalar::Str(s)) => Some(Some(s.clone())),
        JsonValue::Scalar(JsonScalar::Null) => Some(None),
        _ => None,
    }
}

fn read_opt_qtype(v: &JsonValue) -> (r: Option<Option<QueryType>>)
    ensures
        match r {
            Some(o) => as_opt_qtype(v@) == Some(o),
            None => as_opt_qtype(v@) is None,
        },
{
    match v {
        JsonValue::Scalar(JsonScalar::Str(s)) => match QueryType::from_label(s.as_str()) {
            Some(q) => Some(Some(q)),
            None => None,
        },
        JsonValue::Scalar(JsonScalar::Null) => Some(None),
        _ => None,
    }
}

fn read_opt_u32(v: &JsonValue) -> (r: Option<Option<u32>>)
    ensures
        match r {
            Some(o) => as_opt_u32(v@) == Some(o),
            None => as_opt_u32(v@) is None,
        },
{
    match v {
        JsonValue::Scalar(JsonScalar::Num(t)) => match parse_digits_bounded(
            t.as_str(),
            0xFFFFFFFF,
        ) {
            Some(x) => Some(Some(x as u32)),
            None => None,
        },
        JsonValue::Scalar(JsonScalar::Null) => Some(None),
        _ => None,
    }
}

fn read_opt_i64(v: &JsonValue) -> (r: Option<Option<i64>>)
    ensures
        match r {
            Some(o) => as_opt_i64(v@) == Some(o),
            None => as_opt_i64(v@) is None,
        },
{
    match v {
        JsonValue::Scalar(JsonScalar::Num(t)) => {
            let ts = t.as_str();
            let n = ts.unicode_len();
            if n > 0 && ts.get_char(0) == '-' {
                let d = ts.substring_char(1, n);
                match parse_digits_bounded(d, 0x8000000000000000) {
                    Some(mag) => {
                        let val: i64 = if mag == 0x8000000000000000 {
                            i64::MIN
                        } else {
                            -(mag as i64)
                        };
                        Some(Some(val))
                    },
                    None => None,
                }
            } else {
                match parse_digits_bounded(ts, 0x7FFFFFFFFFFFFFFF) {
                    Some(x) => Some(Some(x as i64)),
                    None => None,
                }
            }
        },
        JsonValue::Scalar(JsonScalar::Null) => Some(None),
        _ => None,
    }
}

fn read_opt_nums(v: &JsonValue) -> (r: Option<Option<Vec<String>>>)
    ensures
        match r {
            Some(o) => as_opt_nums(v@) == Some(
                match o {
                    Some(b) => Some(b.deep_view()),
                    None => None,
                },
            ),
            None => as_opt_nums(v@) is None,
        },
{
    match v {
        JsonValue::Arr(elems) => {
            let ghost especs = Seq::new(elems@.len(), |i: int| elems@[i]@);
            proof {
                assert(v@ =~= SpecValue::Arr(especs));
            }
            let mut out: Vec<String> = Vec::new();
            let mut k: usize = 0;
            while k < elems.len()
                invariant
                    especs == Seq::new(elems@.len(), |i: int| elems@[i]@),
                    v@ == SpecValue::Arr(especs),
                    k <= elems@.len(),
                    out@.len() == k,
                    forall|q: int| 0 <= q < k ==> (#[trigger] especs[q]) is Num,
                    forall|q: int| 0 <= q < k ==> #[trigger] out@[q]@ == num_token(especs[q]),
                decreases elems@.len() - k,
            {
                match &elems[k] {
                    JsonScalar::Num(t) => {
                        out.push(t.clone());
                    },
                    _ => {
                        proof {
                            assert(v@ == SpecValue::Arr(especs));
                            assert(!(forall|q: int|
                                0 <= q < especs.len() ==> (#[trigger] especs[q]) is Num)) by {
                                assert(!(especs[k as int] is Num));
                            }
                        }
                        return None;
                    },
                }
                k += 1;
            }
            proof {
                assert(out.deep_view() =~= Seq::new(especs.len(), |q: int| num_token(especs[q])));
            }
            Some(Some(out))
        },
        JsonValue::Scalar(JsonScalar::Null) => Some(None),
        _ => None,
    }
}

proof fn lemma_keys_distinct()
    ensures
        "status"@.len() == 6,
        "reason"@.len() == 6,
        "icao24"@.len() == 6,
        "bounds"@.len() == 6,
        "hint"@.len() == 4,
        "stop"@.len() == 4,
        "start"@.len() == 5,
        "limit"@.len() == 5,
        "airport"@.len() == 7,
        "callsign"@.len() == 8,
        "query_type"@.len() == 10,
        "time_buffer"@.len() == 11,
        "arrival_airport"@.len() == 15,
        "departure_airport"@.len() == 17,
        "status"@ != "reason"@,
        "status"@ != "icao24"@,
        "status"@ != "bounds"@,
        "reason"@ != "icao24"@,
        "reason"@ != "bounds"@,
        "icao24"@ != "bounds"@,
        "hint"@ != "stop"@,
        "start"@ != "limit"@,
{
    reveal_strlit("status");
    reveal_strlit("reason");
    reveal_strlit("query_type");
    reveal_strlit("hint");
    reveal_strlit("icao24");
    reveal_strlit("start");
    reveal_strlit("stop");
    reveal_strlit("callsign");
    reveal_strlit("departure_airport");
    reveal_strlit("arrival_airport");
    reveal_strlit("airport");
    reveal_strlit("limit");
    reveal_strlit("bounds");
    reveal_strlit("time_buffer");
    assert("status"@[0] == 's' && "reason"@[0] == 'r' && "icao24"@[0] == 'i' && "bounds"@[0]
        == 'b');
    assert("hint"@[0] == 'h' && "stop"@[0] == 's');
    assert("start"@[0] == 's' && "limit"@[0] == 'l');
    assert("start"@[1] == 't' && "stop"@[1] == 't');
}

proof fn lemma_push_all(full: Seq<(Seq<char>, SpecValue)>, i: int)
    requires
        0 <= i < full.len(),
    ensures
        forall|k: Seq<char>|
            full[i].0 != k ==> #[trigger] count_key(full.subrange(0, i + 1), k) == count_key(
                full.subrange(0, i),
                k,
            ),
        forall|k: Seq<char>|
            #![trigger first_val(full.subrange(0, i + 1), k)]
            full[i].0 != k && count_key(full.subrange(0, i), k) >= 1 ==> first_val(
                full.subrange(0, i + 1),
                k,
            ) == first_val(full.subrange(0, i), k),
{
    assert forall|k: Seq<char>| full[i].0 != k implies #[trigger] count_key(
        full.subrange(0, i + 1),
        k,
    ) == count_key(full.subrange(0, i), k) by {
        lemma_push_effect(full, i, k);
    }
    assert forall|k: Seq<char>|
        #![trigger first_val(full.subrange(0, i + 1), k)]
        full[i].0 != k && count_key(full.subrange(0, i), k) >= 1 implies first_val(
        full.subrange(0, i + 1),
        k,
    ) == first_val(full.subrange(0, i), k) by {
        lemma_push_effect(full, i, k);
    }
}

fn step_status(
    slot: &mut Option<String>,
    val: &JsonValue,
    Ghost(full): Ghost<Seq<(Seq<char>, SpecValue)>>,
    Ghost(i): Ghost<int>,
) -> (ok: bool)
    requires
        0 <= i < full.len(),
        full[i].0 == "status"@,
        full[i].1 == val@,
        count_key(full.subrange(0, i), "status"@) == (if (*old(slot)) is Some {
            1int
        } else {
            0int
        }),
        match *old(slot) {
            Some(s) => as_req_string(first_val(full.subrange(0, i), "status"@)) == Some(s@),
            None => true,
        },
    ensures
        ok ==> count_key(full.subrange(0, i + 1), "status"@) == 1 && (*final(slot)) is Some && (
        match *final(slot) {
            Some(s) => as_req_string(first_val(full.subrange(0, i + 1), "status"@)) == Some(s@),
            None => false,
        }),
        !ok ==> !fields_ok(full),
{
    if slot.is_some() {
        proof {
            lemma_key_dup(full, i, "status"@);
        }
        return false;
    }
    match read_req_string(val) {
        Some(s) => {
            *slot = Some(s);
            proof {
                lemma_push_effect(full, i, "status"@);
            }
            true
        },
        None => {
            proof {
                lemma_key_hit(full, i, "status"@);
                assert(!fields_ok(full)) by {
                    if count_key(full, "status"@) == 1 {
                    }
                }
            }
            false
        },
    }
}

fn step_opt_str(
    slot: &mut Option<String>,
    seen: &mut bool,
    val: &JsonValue,
    Ghost(full): Ghost<Seq<(Seq<char>, SpecValue)>>,
    Ghost(i): Ghost<int>,
    Ghost(k): Ghost<Seq<char>>,
) -> (ok: bool)
    requires
        0 <= i < full.len(),
        full[i].0 == k,
        full[i].1 == val@,
        count_key(full.subrange(0, i), k) == (if *old(seen) {
            1int
        } else {
            0int
        }),
        *old(seen) ==> as_opt_string(first_val(full.subrange(0, i), k)) == Some(opt_str_view(*old(slot))),
    ensures
        ok ==> *final(seen) && count_key(full.subrange(0, i + 1), k) == 1 && as_opt_string(
            first_val(full.subrange(0, i + 1), k),
        ) == Some(opt_str_view(*final(slot))),
        !ok ==> count_key(full, k) >= 2 || (count_key(full, k) == 1 && as_opt_string(
            first_val(full, k),
        ) is None),
{
    if *seen {
        proof {
            lemma_key_dup(full, i, k);
        }
        return false;
    }
    match read_opt_string(val) {
        Some(o) => {
            *slot = o;
            *seen = true;
            proof {
                lemma_push_effect(full, i, k);
            }
            true
        },
        None => {
            proof {
                lemma_key_hit(full, i, k);
            }
            false
        },
    }
}

fn step_opt_qtype(
    slot: &mut Option<QueryType>,
    seen: &mut bool,
    val: &JsonValue,
    Ghost(full): Ghost<Seq<(Seq<char>, SpecValue)>>,
    Ghost(i): Ghost<int>,
    Ghost(k): Ghost<Seq<char>>,
) -> (ok: bool)
    requires
        0 <= i < full.len(),
        full[i].0 == k,
        full[i].1 == val@,
        count_key(full.subrange(0, i), k) == (if *old(seen) {
            1int
        } else {
            0int
        }),
        *old(seen) ==> as_opt_qtype(first_val(full.subrange(0, i), k)) == Some(*old(slot)),
    ensures
        ok ==> *final(seen) && count_key(full.subrange(0, i + 1), k) == 1 && as_opt_qtype(
            first_val(full.subrange(0, i + 1), k),
        ) == Some(*final(slot)),
        !ok ==> count_key(full, k) >= 2 || (count_key(full, k) == 1 && as_opt_qtype(
            first_val(full, k),
        ) is None),
{
    if *seen {
        proof {
            lemma_key_dup(full, i, k);
        }
        return false;
    }
    match read_opt_qtype(val) {
        Some(o) => {
            *slot = o;
            *seen = true;
            proof {
                lemma_push_effect(full, i, k);
            }
            true
        },
        None => {
            proof {
                lemma_key_hit(full, i, k);
            }
            false
        },
    }
}

fn step_opt_u32(
    slot: &mut Option<u32>,
    seen: &mut bool,
    val: &JsonValue,
    Ghost(full): Ghost<Seq<(Seq<char>, SpecValue)>>,
    Ghost(i): Ghost<int>,
    Ghost(k): Ghost<Seq<char>>,
) -> (ok: bool)
    requires
        0 <= i < full.len(),
        full[i].0 == k,
        full[i].1 == val@,
        count_key(full.subrange(0, i), k) == (if *old(seen) {
            1int
        } else {
            0int
        }),
        *old(seen) ==> as_opt_u32(first_val(full.subrange(0, i), k)) == Some(*old(slot)),
    ensures
        ok ==> *final(seen) && count_key(full.subrange(0, i + 1), k) == 1 && as_opt_u32(
            first_val(full.subrange(0, i + 1), k),
        ) == Some(*final(slot)),
        !ok ==> count_key(full, k) >= 2 || (count_key(full, k) == 1 && as_opt_u32(
            first_val(full, k),
        ) is None),
{
    if *seen {
        proof {
            lemma_key_dup(full, i, k);
        }
        return false;
    }
    match read_opt_u32(val) {
        Some(o) => {
            *slot = o;
            *seen = true;
            proof {
                lemma_push_effect(full, i, k);
            }
            true
        },
        None => {
            proof {
                lemma_key_hit(full, i, k);
            }
            false
        },
    }
}

fn step_opt_i64(
    slot: &mut Option<i64>,
    seen: &mut bool,
    val: &JsonValue,
    Ghost(full): Ghost<Seq<(Seq<char>, SpecValue)>>,
    Ghost(i): Ghost<int>,
    Ghost(k): Ghost<Seq<char>>,
) -> (ok: bool)
    requires
        0 <= i < full.len(),
        full[i].0 == k,
        full[i].1 == val@,
        count_key(full.subrange(0, i), k) == (if *old(seen) {
            1int
        } else {
            0int
        }),
        *old(seen) ==> as_opt_i64(first_val(full.subrange(0, i), k)) == Some(*old(slot)),
    ensures
        ok ==> *final(seen) && count_key(full.subrange(0, i + 1), k) == 1 && as_opt_i64(
            first_val(full.subrange(0, i + 1), k),
        ) == Some(*final(slot)),
        !ok ==> count_key(full, k) >= 2 || (count_key(full, k) == 1 && as_opt_i64(
            first_val(full, k),
        ) is None),
{
    if *seen {
        proof {
            lemma_key_dup(full, i, k);
        }
        return false;
    }
    match read_opt_i64(val) {
        Some(o) => {
            *slot = o;
            *seen = true;
            proof {
                lemma_push_effect(full, i, k);
            }
            true
        },
        None => {
            proof {
                lemma_key_hit(full, i, k);
            }
            false
        },
    }
}

fn step_opt_nums(
    slot: &mut Option<Vec<String>>,
    seen: &mut bool,
    val: &JsonValue,
    Ghost(full): Ghost<Seq<(Seq<char>, SpecValue)>>,
    Ghost(i): Ghost<int>,
    Ghost(k): Ghost<Seq<char>>,
) -> (ok: bool)
    requires
        0 <= i < full.len(),
        full[i].0 == k,
        full[i].1 == val@,
        count_key(full.subrange(0, i), k) == (if *old(seen) {
            1int
        } else {
            0int
        }),
        *old(seen) ==> as_opt_nums(first_val(full.subrange(0, i), k)) == Some(match *old(slot) {
            Some(b) => Some(b.deep_view()),
            None => None,
        }),
    ensures
        ok ==> *final(seen) && count_key(full.subrange(0, i + 1), k) == 1 && as_opt_nums(
            first_val(full.subrange(0, i + 1), k),
        ) == Some(match *final(slot) {
            Some(b) => Some(b.deep_view()),
            None => None,
        }),
        !ok ==> count_key(full, k) >= 2 || (count_key(full, k) == 1 && as_opt_nums(
            first_val(full, k),
        ) is None),
{
    if *seen {
        proof {
            lemma_key_dup(full, i, k);
        }
        return false;
    }
    match read_opt_nums(val) {
        Some(o) => {
            *slot = o;
            *seen = true;
            proof {
                lemma_push_effect(full, i, k);
            }
            true
        },
        None => {
            proof {
                lemma_key_hit(full, i, k);
            }
            false
        },
    }
}

/// Working storage while the members are read: one slot and one
/// seen-flag per known field.
struct FieldSlots {
    status: Option<String>,
    reason: Option<String>,
    seen_reason: bool,
    hint: Option<String>,
    seen_hint: bool,
    icao24: Option<String>,
    seen_icao24: bool,
    start: Option<String>,
    seen_start: bool,
    stop: Option<String>,
    seen_stop: bool,
    callsign: Option<String>,
    seen_callsign: bool,
    departure_airport: Option<String>,
    seen_departure_airport: bool,
    arrival_airport: Option<String>,
    seen_arrival_airport: bool,
    airport: Option<String>,
    seen_airport: bool,
    query_type: Option<QueryType>,
    seen_query_type: bool,
    limit: Option<u32>,
    seen_limit: bool,
    bounds: Option<Vec<String>>,
    seen_bounds: bool,
    time_buffer: Option<i64>,
    seen_time_buffer: bool,
}

/// The slots agree with the members seen so far: each known key's count
/// matches its flag and a filled slot holds the typed first value.
spec fn slots_inv(sl: FieldSlots, p: Seq<(Seq<char>, SpecValue)>) -> bool {
    &&& count_key(p, "status"@) == (if sl.status is Some {
        1int
    } else {
        0int
    })
    &&& match sl.status {
        Some(s) => as_req_string(first_val(p, "status"@)) == Some(s@),
        None => true,
    }
    &&& count_key(p, "reason"@) == (if sl.seen_reason {
        1int
    } else {
        0int
    })
    &&& sl.seen_reason ==> as_opt_string(first_val(p, "reason"@)) == Some(opt_str_view(sl.reason))
    &&& !sl.seen_reason ==> sl.reason is None
    &&& count_key(p, "hint"@) == (if sl.seen_hint {
        1int
    } else {
        0int
    })
    &&& sl.seen_hint ==> as_opt_string(first_val(p, "hint"@)) == Some(opt_str_view(sl.hint))
    &&& !sl.seen_hint ==> sl.hint is None
    &&& count_key(p, "icao24"@) == (if sl.seen_icao24 {
        1int
    } else {
        0int
    })
    &&& sl.seen_icao24 ==> as_opt_string(first_val(p, "icao24"@)) == Some(opt_str_view(sl.icao24))
    &&& !sl.seen_icao24 ==> sl.icao24 is None
    &&& count_key(p, "start"@) == (if sl.seen_start {
        1int
    } else {
        0int
    })
    &&& sl.seen_start ==> as_opt_string(first_val(p, "start"@)) == Some(opt_str_view(sl.start))
    &&& !sl.seen_start ==> sl.start is None
    &&& count_key(p, "stop"@) == (if sl.seen_stop {
        1int
    } else {
        0int
    })
    &&& sl.seen_stop ==> as_opt_string(first_val(p, "stop"@)) == Some(opt_str_view(sl.stop))
    &&& !sl.seen_stop ==> sl.stop is None
    &&& count_key(p, "callsign"@) == (if sl.seen_callsign {
        1int
    } else {
        0int
    })
    &&& sl.seen_callsign ==> as_opt_string(first_val(p, "callsign"@)) == Some(opt_str_view(sl.callsign))
    &&& !sl.seen_callsign ==> sl.callsign is None
    &&& count_key(p, "departure_airport"@) == (if sl.seen_departure_airport {
        1int
    } else {
        0int
    })
    &&& sl.seen_departure_airport ==> as_opt_string(first_val(p, "departure_airport"@)) == Some(opt_str_view(sl.departure_airport))
    &&& !sl.seen_departure_airport ==> sl.departure_airport is None
    &&& count_key(p, "arrival_airport"@) == (if sl.seen_arrival_airport {
        1int
    } else {
        0int
    })
    &&& sl.seen_arrival_airport ==> as_opt_string(first_val(p, "arrival_airport"@)) == Some(opt_str_view(sl.arrival_airport))
    &&& !sl.seen_arrival_airport ==> sl.arrival_airport is None
    &&& count_key(p, "airport"@) == (if sl.seen_airport {
        1int
    } else {
        0int
    })
    &&& sl.seen_airport ==> as_opt_string(first_val(p, "airport"@)) == Some(opt_str_view(sl.airport))
    &&& !sl.seen_airport ==> sl.airport is None
    &&& count_key(p, "query_type"@) == (if sl.seen_query_type {
        1int
    } else {
        0int
    })
    &&& sl.seen_query_type ==> as_opt_qtype(first_val(p, "query_type"@)) == Some(sl.query_type)
    &&& !sl.seen_query_type ==> sl.query_type is None
    &&& count_key(p, "limit"@) == (if sl.seen_limit {
        1int
    } else {
        0int
    })
    &&& sl.seen_limit ==> as_opt_u32(first_val(p, "limit"@)) == Some(sl.limit)
    &&& !sl.seen_limit ==> sl.limit is None
    &&& count_key(p, "bounds"@) == (if sl.seen_bounds {
        1int
    } else {
        0int
    })
    &&& sl.seen_bounds ==> as_opt_nums(first_val(p, "bounds"@)) == Some(match sl.bounds {
        Some(b) => Some(b.deep_view()),
        None => None,
    })
    &&& !sl.seen_bounds ==> sl.bounds is None
    &&& count_key(p, "time_buffer"@) == (if sl.seen_time_buffer {
        1int
    } else {
        0int
    })
    &&& sl.seen_time_buffer ==> as_opt_i64(first_val(p, "time_buffer"@)) == Some(sl.time_buffer)
    &&& !sl.seen_time_buffer ==> sl.time_buffer is None
}

proof fn lemma_unknown_key(sl: FieldSlots, full: Seq<(Seq<char>, SpecValue)>, i: int)
    requires
        0 <= i < full.len(),
        full[i].0 != "status"@,
        full[i].0 != "reason"@,
        full[i].0 != "query_type"@,
        full[i].0 != "hint"@,
        full[i].0 != "icao24"@,
        full[i].0 != "start"@,
        full[i].0 != "stop"@,
        full[i].0 != "callsign"@,
        full[i].0 != "departure_airport"@,
        full[i].0 != "arrival_airport"@,
        full[i].0 != "airport"@,
        full[i].0 != "limit"@,
        full[i].0 != "bounds"@,
        full[i].0 != "time_buffer"@,
        slots_inv(sl, full.subrange(0, i)),
    ensures
        slots_inv(sl, full.subrange(0, i + 1)),
{
    lemma_push_all(full, i);
}

fn pair_status(
    sl: &mut FieldSlots,
    val: &JsonValue,
    Ghost(full): Ghost<Seq<(Seq<char>, SpecValue)>>,
    Ghost(i): Ghost<int>,
) -> (ok: bool)
    requires
        0 <= i < full.len(),
        full[i].0 == "status"@,
        full[i].1 == val@,
        slots_inv(*old(sl), full.subrange(0, i)),
    ensures
        ok ==> slots_inv(*final(sl), full.subrange(0, i + 1)),
        !ok ==> !fields_ok(full),
{
    proof {
        lemma_keys_distinct();
        lemma_push_all(full, i);
    }
    if !step_status(&mut sl.status, val, Ghost(full), Ghost(i)) {
        return false;
    }
    true
}

fn pair_reason(
    sl: &mut FieldSlots,
    val: &JsonValue,
    Ghost(full): Ghost<Seq<(Seq<char>, SpecValue)>>,
    Ghost(i): Ghost<int>,
) -> (ok: bool)
    requires
        0 <= i < full.len(),
        full[i].0 == "reason"@,
        full[i].1 == val@,
        slots_inv(*old(sl), full.subrange(0, i)),
    ensures
        ok ==> slots_inv(*final(sl), full.subrange(0, i + 1)),
        !ok ==> !fields_ok(full),
{
    proof {
        lemma_keys_distinct();
        lemma_push_all(full, i);
    }
    if !step_opt_str(&mut sl.reason, &mut sl.seen_reason, val, Ghost(full), Ghost(i), Ghost("reason"@)) {
        proof {
            assert(!fields_ok(full));
        }
        return false;
    }
    true
}

fn pair_hint(
    sl: &mut FieldSlots,
    val: &JsonValue,
    Ghost(full): Ghost<Seq<(Seq<char>, SpecValue)>>,
    Ghost(i): Ghost<int>,
) -> (ok: bool)
    requires
        0 <= i < full.len(),
        full[i].0 == "hint"@,
        full[i].1 == val@,
        slots_inv(*old(sl), full.subrange(0, i)),
    ensures
        ok ==> slots_inv(*final(sl), full.subrange(0, i + 1)),
        !ok ==> !fields_ok(full),
{
    proof {
        lemma_keys_distinct();
        lemma_push_all(full, i);
    }
    if !step_opt_str(&mut sl.hint, &mut sl.seen_hint, val, Ghost(full), Ghost(i), Ghost("hint"@)) {
        proof {
            assert(!fields_ok(full));
        }
        return false;
    }
    true
}

fn pair_icao24(
    sl: &mut FieldSlots,
    val: &JsonValue,
    Ghost(full): Ghost<Seq<(Seq<char>, SpecValue)>>,
    Ghost(i): Ghost<int>,
) -> (ok: bool)
    requires
        0 <= i < full.len(),
        full[i].0 == "icao24"@,
        full[i].1 == val@,
        slots_inv(*old(sl), full.subrange(0, i)),
    ensures
        ok ==> slots_inv(*final(sl), full.subrange(0, i + 1)),
        !ok ==> !fields_ok(full),
{
    proof {
        lemma_keys_distinct();
        lemma_push_all(full, i);
    }
    if !step_opt_str(&mut sl.icao24, &mut sl.seen_icao24, val, Ghost(full), Ghost(i), Ghost("icao24"@)) {
        proof {
            assert(!fields_ok(full));
        }
        return false;
    }
    true
}

fn pair_start(
    sl: &mut FieldSlots,
    val: &JsonValue,
    Ghost(full): Ghost<Seq<(Seq<char>, SpecValue)>>,
    Ghost(i): Ghost<int>,
) -> (ok: bool)
    requires
        0 <= i < full.len(),
        full[i].0 == "start"@,
        full[i].1 == val@,
        slots_inv(*old(sl), full.subrange(0, i)),
    ensures
        ok ==> slots_inv(*final(sl), full.subrange(0, i + 1)),
        !ok ==> !fields_ok(full),
{
    proof {
        lemma_keys_distinct();
        lemma_push_all(full, i);
    }
    if !step_opt_str(&mut sl.start, &mut sl.seen_start, val, Ghost(full), Ghost(i), Ghost("start"@)) {
        proof {
            assert(!fields_ok(full));
        }
        return false;
    }
    true
}

fn pair_stop(
    sl: &mut FieldSlots,
    val: &JsonValue,
    Ghost(full): Ghost<Seq<(Seq<char>, SpecValue)>>,
    Ghost(i): Ghost<int>,
) -> (ok: bool)
    requires
        0 <= i < full.len(),
        full[i].0 == "stop"@,
        full[i].1 == val@,
        slots_inv(*old(sl), full.subrange(0, i)),
    ensures
        ok ==> slots_inv(*final(sl), full.subrange(0, i + 1)),
        !ok ==> !fields_ok(full),
{
    proof {
        lemma_keys_distinct();
        lemma_push_all(full, i);
    }
    if !step_opt_str(&mut sl.stop, &mut sl.seen_stop, val, Ghost(full), Ghost(i), Ghost("stop"@)) {
        proof {
            assert(!fields_ok(full));
        }
        return false;
    }
    true
}

fn pair_callsign(
    sl: &mut FieldSlots,
    val: &JsonValue,
    Ghost(full): Ghost<Seq<(Seq<char>, SpecValue)>>,
    Ghost(i): Ghost<int>,
) -> (ok: bool)
    requires
        0 <= i < full.len(),
        full[i].0 == "callsign"@,
        full[i].1 == val@,
        slots_inv(*old(sl), full.subrange(0, i)),
    ensures
        ok ==> slots_inv(*final(sl), full.subrange(0, i + 1)),
        !ok ==> !fields_ok(full),
{
    proof {
        lemma_keys_distinct();
        lemma_push_all(full, i);
    }
    if !step_opt_str(&mut sl.callsign, &mut sl.seen_callsign, val, Ghost(full), Ghost(i), Ghost("callsign"@)) {
        proof {
            assert(!fields_ok(full));
        }
        return false;
    }
    true
}

fn pair_departure_airport(
    sl: &mut FieldSlots,
    val: &JsonValue,
    Ghost(full): Ghost<Seq<(Seq<char>, SpecValue)>>,
    Ghost(i): Ghost<int>,
) -> (ok: bool)
    requires
        0 <= i < full.len(),
        full[i].0 == "departure_airport"@,
        full[i].1 == val@,
        slots_inv(*old(sl), full.subrange(0, i)),
    ensures
        ok ==> slots_inv(*final(sl), full.subrange(0, i + 1)),
        !ok ==> !fields_ok(full),
{
    proof {
        lemma_keys_distinct();
        lemma_push_all(full, i);
    }
    if !step_opt_str(&mut sl.departure_airport, &mut sl.seen_departure_airport, val, Ghost(full), Ghost(i), Ghost("departure_airport"@)) {
        proof {
            assert(!fields_ok(full));
        }
        return false;
    }
    true
}

fn pair_arrival_airport(
    sl: &mut FieldSlots,
    val: &JsonValue,
    Ghost(full): Ghost<Seq<(Seq<char>, SpecValue)>>,
    Ghost(i): Ghost<int>,
) -> (ok: bool)
    requires
        0 <= i < full.len(),
        full[i].0 == "arrival_airport"@,
        full[i].1 == val@,
        slots_inv(*old(sl), full.subrange(0, i)),
    ensures
        ok ==> slots_inv(*final(sl), full.subrange(0, i + 1)),
        !ok ==> !fields_ok(full),
{
    proof {
        lemma_keys_distinct();
        lemma_push_all(full, i);
    }
    if !step_opt_str(&mut sl.arrival_airport, &mut sl.seen_arrival_airport, val, Ghost(full), Ghost(i), Ghost("arrival_airport"@)) {
        proof {
            assert(!fields_ok(full));
        }
        return false;
    }
    true
}

fn pair_airport(
    sl: &mut FieldSlots,
    val: &JsonValue,
    Ghost(full): Ghost<Seq<(Seq<char>, SpecValue)>>,
    Ghost(i): Ghost<int>,
) -> (ok: bool)
    requires
        0 <= i < full.len(),
        full[i].0 == "airport"@,
        full[i].1 == val@,
        slots_inv(*old(sl), full.subrange(0, i)),
    ensures
        ok ==> slots_inv(*final(sl), full.subrange(0, i + 1)),
        !ok ==> !fields_ok(full),
{
    proof {
        lemma_keys_distinct();
        lemma_push_all(full, i);
    }
    if !step_opt_str(&mut sl.airport, &mut sl.seen_airport, val, Ghost(full), Ghost(i), Ghost("airport"@)) {
        proof {
            assert(!fields_ok(full));
        }
        return false;
    }
    true
}

fn pair_query_type(
    sl: &mut FieldSlots,
    val: &JsonValue,
    Ghost(full): Ghost<Seq<(Seq<char>, SpecValue)>>,
    Ghost(i): Ghost<int>,
) -> (ok: bool)
    requires
        0 <= i < full.len(),
        full[i].0 == "query_type"@,
        full[i].1 == val@,
        slots_inv(*old(sl), full.subrange(0, i)),
    ensures
        ok ==> slots_inv(*final(sl), full.subrange(0, i + 1)),
        !ok ==> !fields_ok(full),
{
    proof {
        lemma_keys_distinct();
        lemma_push_all(full, i);
    }
    if !step_opt_qtype(&mut sl.query_type, &mut sl.seen_query_type, val, Ghost(full), Ghost(i), Ghost("query_type"@)) {
        proof {
            assert(!fields_ok(full));
        }
        return false;
    }
    true
}

fn pair_limit(
    sl: &mut FieldSlots,
    val: &JsonValue,
    Ghost(full): Ghost<Seq<(Seq<char>, SpecValue)>>,
    Ghost(i): Ghost<int>,
) -> (ok: bool)
    requires
        0 <= i < full.len(),
        full[i].0 == "limit"@,
        full[i].1 == val@,
        slots_inv(*old(sl), full.subrange(0, i)),
    ensures
        ok ==> slots_inv(*final(sl), full.subrange(0, i + 1)),
        !ok ==> !fields_ok(full),
{
    proof {
        lemma_keys_distinct();
        lemma_push_all(full, i);
    }
    if !step_opt_u32(&mut sl.limit, &mut sl.seen_limit, val, Ghost(full), Ghost(i), Ghost("limit"@)) {
        proof {
            assert(!fields_ok(full));
        }
        return false;
    }
    true
}

fn pair_bounds(
    sl: &mut FieldSlots,
    val: &JsonValue,
    Ghost(full): Ghost<Seq<(Seq<char>, SpecValue)>>,
    Ghost(i): Ghost<int>,
) -> (ok: bool)
    requires
        0 <= i < full.len(),
        full[i].0 == "bounds"@,
        full[i].1 == val@,
        slots_inv(*old(sl), full.subrange(0, i)),
    ensures
        ok ==> slots_inv(*final(sl), full.subrange(0, i + 1)),
        !ok ==> !fields_ok(full),
{
    proof {
        lemma_keys_distinct();
        lemma_push_all(full, i);
    }
    if !step_opt_nums(&mut sl.bounds, &mut sl.seen_bounds, val, Ghost(full), Ghost(i), Ghost("bounds"@)) {
        proof {
            assert(!fields_ok(full));
        }
        return false;
    }
    true
}

fn pair_time_buffer(
    sl: &mut FieldSlots,
    val: &JsonValue,
    Ghost(full): Ghost<Seq<(Seq<char>, SpecValue)>>,
    Ghost(i): Ghost<int>,
) -> (ok: bool)
    requires
        0 <= i < full.len(),
        full[i].0 == "time_buffer"@,
        full[i].1 == val@,
        slots_inv(*old(sl), full.subrange(0, i)),
    ensures
        ok ==> slots_inv(*final(sl), full.subrange(0, i + 1)),
        !ok ==> !fields_ok(full),
{
    proof {
        lemma_keys_distinct();
        lemma_push_all(full, i);
    }
    if !step_opt_i64(&mut sl.time_buffer, &mut sl.seen_time_buffer, val, Ghost(full), Ghost(i), Ghost("time_buffer"@)) {
        proof {
            assert(!fields_ok(full));
        }
        return false;
    }
    true
}

/// Reads the object's members into the loosely-typed fields: unknown keys
/// are ignored, a duplicate or ill-shaped known field refuses the whole
/// object, and the status field is required.
pub fn map_fields(pairs: &Vec<(String, JsonValue)>) -> (r: Option<ParsedParams>)
    ensures
        match r {
            Some(f) => spec_map_fields(pairs_view(pairs@)) == Some(f@),
            None => spec_map_fields(pairs_view(pairs@)) is None,
        },
{
    let ghost full = pairs_view(pairs@);
    let mut sl = FieldSlots {
        status: None,
        reason: None,
        seen_reason: false,
        hint: None,
        seen_hint: false,
        icao24: None,
        seen_icao24: false,
        start: None,
        seen_start: false,
        stop: None,
        seen_stop: false,
        callsign: None,
        seen_callsign: false,
        departure_airport: None,
        seen_departure_airport: false,
        arrival_airport: None,
        seen_arrival_airport: false,
        airport: None,
        seen_airport: false,
        query_type: None,
        seen_query_type: false,
        limit: None,
        seen_limit: false,
        bounds: None,
        seen_bounds: false,
        time_buffer: None,
        seen_time_buffer: false,
    };
    proof {
        assert(full.subrange(0, 0) =~= Seq::<(Seq<char>, SpecValue)>::empty());
        assert(slots_inv(sl, full.subrange(0, 0)));
    }
    let mut i: usize = 0;
    while i < pairs.len()
        invariant
            full == pairs_view(pairs@),
            i <= pairs@.len(),
            slots_inv(sl, full.subrange(0, i as int)),
        decreases pairs@.len() - i,
    {
        let pair = &pairs[i];
        let key = pair.0.as_str();
        let val = &pair.1;
        proof {
            assert(full[i as int] == (pairs@[i as int].0@, pairs@[i as int].1@));
        }
        if str_eq(key, "status") {
            if !pair_status(&mut sl, val, Ghost(full), Ghost(i as int)) {
                return None;
            }
        } else if str_eq(key, "reason") {
            if !pair_reason(&mut sl, val, Ghost(full), Ghost(i as int)) {
                return None;
            }
        } else if str_eq(key, "hint") {
            if !pair_hint(&mut sl, val, Ghost(full), Ghost(i as int)) {
                return None;
            }
        } else if str_eq(key, "icao24") {
            if !pair_icao24(&mut sl, val, Ghost(full), Ghost(i as int)) {
                return None;
            }
        } else if str_eq(key, "start") {
            if !pair_start(&mut sl, val, Ghost(full), Ghost(i as int)) {
                return None;
            }
        } else if str_eq(key, "stop") {
            if !pair_stop(&mut sl, val, Ghost(full), Ghost(i as int)) {
                return None;
            }
        } else if str_eq(key, "callsign") {
            if !pair_callsign(&mut sl, val, Ghost(full), Ghost(i as int)) {
                return None;
            }
        } else if str_eq(key, "departure_airport") {
            if !pair_departure_airport(&mut sl, val, Ghost(full), Ghost(i as int)) {
                return None;
            }
        } else if str_eq(key, "arrival_airport") {
            if !pair_arrival_airport(&mut sl, val, Ghost(full), Ghost(i as int)) {
                return None;
            }
        } else if str_eq(key, "airport") {
            if !pair_airport(&mut sl, val, Ghost(full), Ghost(i as int)) {
                return None;
            }
        } else if str_eq(key, "query_type") {
            if !pair_query_type(&mut sl, val, Ghost(full), Ghost(i as int)) {
                return None;
            }
        } else if str_eq(key, "limit") {
            if !pair_limit(&mut sl, val, Ghost(full), Ghost(i as int)) {
                return None;
            }
        } else if str_eq(key, "bounds") {
            if !pair_bounds(&mut sl, val, Ghost(full), Ghost(i as int)) {
                return None;
            }
        } else if str_eq(key, "time_buffer") {
            if !pair_time_buffer(&mut sl, val, Ghost(full), Ghost(i as int)) {
                return None;
            }
        } else {
            proof {
                lemma_unknown_key(sl, full, i as int);
            }
        }
        i += 1;
    }
    proof {
        assert(full.subrange(0, full.len() as int) =~= full);
    }
    let st = match sl.status {
        Some(s) => s,
        None => {
            return None;
        },
    };
    let out = ParsedParams {
        status: st,
        reason: sl.reason,
        query_type: sl.query_type,
        hint: sl.hint,
        icao24: sl.icao24,
        start: sl.start,
        stop: sl.stop,
        callsign: sl.callsign,
        departure_airport: sl.departure_airport,
        arrival_airport: sl.arrival_airport,
        airport: sl.airport,
        limit: sl.limit,
        bounds: sl.bounds,
        time_buffer: sl.time_buffer,
    };
    proof {
        assert(out@ =~= spec_map_fields(full)->Some_0);
    }
    Some(out)
}

/// What the fields yield: a refusal carrying the model's reason when the
/// status reads unclear, otherwise the parsed query with the explicit
/// default query type and the canned hint filled in. A bounds array
/// becomes the rectangle exactly when it has four entries, in order
/// west, south, east, north; any other length leaves the bounds unset.
pub open spec fn spec_build_query(f: FieldsModel) -> Result<PqModel, Seq<char>> {
    if f.status == "unclear"@ {
        Err(
            "Query unclear: "@ + (match f.reason {
                Some(r) => r,
                None => "Query not clear"@,
            }),
        )
    } else {
        let qt = match f.query_type {
            Some(q) => q,
            None => QueryType::Flights,
        };
        Ok(
            PqModel {
                query_type: qt,
                hint: match f.hint {
                    Some(h) => h,
                    None => default_hint(qt),
                },
                params: ParamsModel {
                    icao24: f.icao24,
                    start: f.start,
                    stop: f.stop,
                    callsign: f.callsign,
                    departure_airport: f.departure_airport,
                    arrival_airport: f.arrival_airport,
                    airport: f.airport,
                    limit: f.limit,
                    bounds: match f.bounds {
                        Some(b) => if b.len() == 4 {
                            Some(
                                BoundsModel {
                                    west: b[0],
                                    south: b[1],
                                    east: b[2],
                                    north: b[3],
                                },
                            )
                        } else {
                            None
                        },
                        None => None,
                    },
                },
            },
        )
    }
}

/// Four-entry bounds arrays round-trip exactly in order west, south,
/// east, north; arrays of any other length leave the bounds unset.
pub proof fn lemma_bounds_round_trip(f: FieldsModel)
    requires
        f.status != "unclear"@,
    ensures
        match f.bounds {
            Some(b) => (b.len() == 4 ==> spec_build_query(f)->Ok_0.params.bounds == Some(
                BoundsModel { west: b[0], south: b[1], east: b[2], north: b[3] },
            )) && (b.len() != 4 ==> spec_build_query(f)->Ok_0.params.bounds is None),
            None => spec_build_query(f)->Ok_0.params.bounds is None,
        },
{
}

/// Turns the loosely-typed fields into a validated query, or the unclear
/// refusal.
pub fn build_parsed_query(f: ParsedParams) -> (r: Result<ParsedQuery, LlmError>)
    ensures
        match spec_build_query(f@) {
            Ok(pq) => r matches Ok(p) && p@ == pq,
            Err(m) => r matches Err(e) && e@ == LlmErrorModel::Parse(m),
        },
{
    let ghost fm = f@;
    if str_eq(f.status.as_str(), "unclear") {
        let reason = match f.reason {
            Some(r) => r,
            None => String::from_str("Query not clear"),
        };
        let msg = String::from_str("Query unclear: ").concat(reason.as_str());
        return Err(LlmError::Parse(msg));
    }
    let qt = match f.query_type {
        Some(q) => q,
        None => QueryType::Flights,
    };
    let hint = match f.hint {
        Some(h) => h,
        None => default_hint_str(qt),
    };
    let bounds: Option<Bounds> = match f.bounds {
        Some(b) => if b.len() == 4 {
            Some(
                Bounds {
                    west: b[0].clone(),
                    south: b[1].clone(),
                    east: b[2].clone(),
                    north: b[3].clone(),
                },
            )
        } else {
            None
        },
        None => None,
    };
    let out = ParsedQuery {
        query_type: qt,
        hint,
        params: QueryParams {
            icao24: f.icao24,
            start: f.start,
            stop: f.stop,
            callsign: f.callsign,
            departure_airport: f.departure_airport,
            arrival_airport: f.arrival_airport,
            airport: f.airport,
            limit: f.limit,
            bounds,
        },
    };
    proof {
        assert(out@ =~= spec_build_query(fm)->Ok_0);
    }
    Ok(out)
}

/// Turns raw model output into a validated query: isolates the object,
/// reads it, and applies the status and defaulting rules. Each failure
/// names its stage.
pub fn extract_params(response: &str) -> (r: Result<ParsedQuery, LlmError>)
    ensures
        match spec_extract(response@) {
            None => (r matches Err(e) && e@ == LlmErrorModel::Parse(
                "No JSON object found in response"@,
            )),
            Some(span) => match spec_parse_object(span) {
                None => (r matches Err(e) && e@ == LlmErrorModel::Parse(
                    "JSON parse error: not a flat JSON object"@,
                )),
                Some(ps) => match spec_map_fields(ps) {
                    None => (r matches Err(e) && e@ == LlmErrorModel::Parse(
                        "JSON parse error: unexpected field shape"@,
                    )),
                    Some(f) => match spec_build_query(f) {
                        Ok(pq) => (r matches Ok(p) && p@ == pq),
                        Err(m) => (r matches Err(e) && e@ == LlmErrorModel::Parse(m)),
                    },
                },
            },
        },
{
    let span = match extract_json(response) {
        Some(t) => t,
        None => {
            return Err(LlmError::Parse(String::from_str("No JSON object found in response")));
        },
    };
    let pairs = match parse_object(span.as_str()) {
        Some(ps) => ps,
        None => {
            return Err(
                LlmError::Parse(String::from_str("JSON parse error: not a flat JSON object")),
            );
        },
    };
    let fields = match map_fields(&pairs) {
        Some(f) => f,
        None => {
            return Err(
                LlmError::Parse(String::from_str("JSON parse error: unexpected field shape")),
            );
        },
    };
    build_parsed_query(fields)
}

} // verus!
