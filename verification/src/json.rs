//! A verified reader for the flat JSON objects the agent extracts from
//! model output. The extraction step never hands over nested braces, so
//! the grammar here is one object of string keys whose values are strings,
//! numbers, booleans, null, or arrays of those scalars. Numbers are kept
//! as their raw tokens; string escapes cover the single-character forms
//! (`\u` sequences are refused).
//!
//! The spec functions below are the grammar; each executable function
//! returns exactly what its spec counterpart denotes.

use vstd::prelude::*;
use crate::strutil::is_digit;

verus! {

/// A scalar JSON value, numbers as raw tokens.
#[derive(Debug, Clone)]
pub enum JsonScalar {
    Null,
    Bool(bool),
    Str(String),
    Num(String),
}

/// A flat JSON value: a scalar, or an array of scalars.
#[derive(Debug, Clone)]
pub enum JsonValue {
    Scalar(JsonScalar),
    Arr(Vec<JsonScalar>),
}

/// The mathematical value of a `JsonScalar`.
#[verifier::ext_equal]
pub enum SpecScalar {
    Null,
    Bool(bool),
    Str(Seq<char>),
    Num(Seq<char>),
}

/// The mathematical value of a `JsonValue`.
#[verifier::ext_equal]
pub enum SpecValue {
    Scalar(SpecScalar),
    Arr(Seq<SpecScalar>),
}

impl View for JsonScalar {
    type V = SpecScalar;

    open spec fn view(&self) -> SpecScalar {
        match self {
            JsonScalar::Null => SpecScalar::Null,
            JsonScalar::Bool(b) => SpecScalar::Bool(*b),
            JsonScalar::Str(s) => SpecScalar::Str(s@),
            JsonScalar::Num(s) => SpecScalar::Num(s@),
        }
    }
}

impl View for JsonValue {
    type V = SpecValue;

    open spec fn view(&self) -> SpecValue {
        match self {
            JsonValue::Scalar(x) => SpecValue::Scalar(x@),
            JsonValue::Arr(a) => SpecValue::Arr(Seq::new(a@.len(), |i: int| a@[i]@)),
        }
    }
}

/// JSON whitespace.
pub open spec fn is_ws(c: char) -> bool {
    c == ' ' || c == '\t' || c == '\n' || c == '\r'
}

/// The first index at or after `i` holding a non-whitespace character.
pub open spec fn spec_skip_ws(s: Seq<char>, i: int) -> int
    decreases s.len() - i,
{
    if 0 <= i < s.len() && is_ws(s[i]) {
        spec_skip_ws(s, i + 1)
    } else {
        i
    }
}

/// What a single-character escape stands for.
pub open spec fn unescape_char(c: char) -> Option<char> {
    if c == '"' {
        Some('"')
    } else if c == '\\' {
        Some('\\')
    } else if c == '/' {
        Some('/')
    } else if c == 'n' {
        Some('\n')
    } else if c == 't' {
        Some('\t')
    } else if c == 'r' {
        Some('\r')
    } else if c == 'b' {
        Some('\u{0008}')
    } else if c == 'f' {
        Some('\u{000C}')
    } else {
        None
    }
}

/// The content of a string literal read from just after its opening quote:
/// the unescaped characters and the index after the closing quote. Raw
/// control characters and unsupported escapes refuse the string.
pub open spec fn spec_parse_string_body(s: Seq<char>, i: int) -> Option<(Seq<char>, int)>
    decreases s.len() - i,
{
    if i < 0 || i >= s.len() {
        None
    } else if s[i] == '"' {
        Some((Seq::empty(), i + 1))
    } else if s[i] == '\\' {
        if i + 1 < s.len() {
            match unescape_char(s[i + 1]) {
                Some(c) => match spec_parse_string_body(s, i + 2) {
                    Some((rest, j)) => Some((seq![c] + rest, j)),
                    None => None,
                },
                None => None,
            }
        } else {
            None
        }
    } else if (s[i] as int) < 32 {
        None
    } else {
        match spec_parse_string_body(s, i + 1) {
            Some((rest, j)) => Some((seq![s[i]] + rest, j)),
            None => None,
        }
    }
}

/// The first index at or after `i` holding a non-digit.
pub open spec fn spec_skip_digits(s: Seq<char>, i: int) -> int
    decreases s.len() - i,
{
    if 0 <= i < s.len() && is_digit(s[i]) {
        spec_skip_digits(s, i + 1)
    } else {
        i
    }
}

/// The end of the integer digits of a number token starting at `i`: one
/// digit run, where a leading zero stands alone.
pub open spec fn spec_int_end(s: Seq<char>, i: int) -> Option<int> {
    if 0 <= i < s.len() && is_digit(s[i]) {
        if s[i] == '0' {
            Some(i + 1)
        } else {
            Some(spec_skip_digits(s, i))
        }
    } else {
        None
    }
}

/// The end of an optional fraction part at `i`.
pub open spec fn spec_frac_end(s: Seq<char>, i: int) -> Option<int> {
    if 0 <= i < s.len() && s[i] == '.' {
        if i + 1 < s.len() && is_digit(s[i + 1]) {
            Some(spec_skip_digits(s, i + 1))
        } else {
            None
        }
    } else {
        Some(i)
    }
}

/// The end of an optional exponent part at `i`.
pub open spec fn spec_exp_end(s: Seq<char>, i: int) -> Option<int> {
    if 0 <= i < s.len() && (s[i] == 'e' || s[i] == 'E') {
        let j = if i + 1 < s.len() && (s[i + 1] == '+' || s[i + 1] == '-') {
            i + 2
        } else {
            i + 1
        };
        if 0 <= j < s.len() && is_digit(s[j]) {
            Some(spec_skip_digits(s, j))
        } else {
            None
        }
    } else {
        Some(i)
    }
}

/// A number token read at `i`: its raw text and the index after it.
pub open spec fn spec_parse_number(s: Seq<char>, i: int) -> Option<(Seq<char>, int)> {
    let st = if 0 <= i < s.len() && s[i] == '-' {
        i + 1
    } else {
        i
    };
    match spec_int_end(s, st) {
        Some(a) => match spec_frac_end(s, a) {
            Some(b) => match spec_exp_end(s, b) {
                Some(c) => Some((s.subrange(i, c), c)),
                None => None,
            },
            None => None,
        },
        None => None,
    }
}

/// Whether the characters of `lit` stand at `i` in `s`.
pub open spec fn spec_match_lit(s: Seq<char>, i: int, lit: Seq<char>) -> bool {
    0 <= i && i + lit.len() <= s.len() && s.subrange(i, i + lit.len()) == lit
}

/// A scalar read at `i`: a string, a number, or one of the three word
/// literals.
pub open spec fn spec_parse_scalar(s: Seq<char>, i: int) -> Option<(SpecScalar, int)> {
    if i < 0 || i >= s.len() {
        None
    } else if s[i] == '"' {
        match spec_parse_string_body(s, i + 1) {
            Some((c, j)) => Some((SpecScalar::Str(c), j)),
            None => None,
        }
    } else if s[i] == '-' || is_digit(s[i]) {
        match spec_parse_number(s, i) {
            Some((t, j)) => Some((SpecScalar::Num(t), j)),
            None => None,
        }
    } else if spec_match_lit(s, i, "true"@) {
        Some((SpecScalar::Bool(true), i + "true"@.len()))
    } else if spec_match_lit(s, i, "false"@) {
        Some((SpecScalar::Bool(false), i + "false"@.len()))
    } else if spec_match_lit(s, i, "null"@) {
        Some((SpecScalar::Null, i + "null"@.len()))
    } else {
        None
    }
}

proof fn lemma_skip_ws_bounds(s: Seq<char>, i: int)
    requires
        0 <= i <= s.len(),
    ensures
        i <= spec_skip_ws(s, i) <= s.len(),
    decreases s.len() - i,
{
    if i < s.len() && is_ws(s[i]) {
        lemma_skip_ws_bounds(s, i + 1);
    }
}

fn skip_ws(s: &str, i: usize, n: usize) -> (r: usize)
    requires
        n == s@.len(),
        i <= n,
    ensures
        i <= r <= n,
        r as int == spec_skip_ws(s@, i as int),
    decreases n - i,
{
    if i < n {
        let c = s.get_char(i);
        if c == ' ' || c == '\t' || c == '\n' || c == '\r' {
            return skip_ws(s, i + 1, n);
        }
    }
    i
}

fn skip_digits(s: &str, i: usize, n: usize) -> (r: usize)
    requires
        n == s@.len(),
        i <= n,
    ensures
        i <= r <= n,
        r as int == spec_skip_digits(s@, i as int),
    decreases n - i,
{
    if i < n {
        let c = s.get_char(i) as u32;
        if 48 <= c && c <= 57 {
            return skip_digits(s, i + 1, n);
        }
    }
    i
}

fn parse_string_body(s: &str, i: usize, n: usize) -> (r: Option<(String, usize)>)
    requires
        n == s@.len(),
        i <= n,
    ensures
        match r {
            Some(p) => i < p.1 <= n && spec_parse_string_body(s@, i as int) == Some(
                (p.0@, p.1 as int),
            ),
            None => spec_parse_string_body(s@, i as int) is None,
        },
    decreases n - i,
{
    if i >= n {
        return None;
    }
    let c = s.get_char(i);
    if c == '"' {
        return Some((String::new(), i + 1));
    }
    if c == '\\' {
        if i + 1 < n {
            let e = s.get_char(i + 1);
            let rep: &str = if e == '"' {
                "\""
            } else if e == '\\' {
                "\\"
            } else if e == '/' {
                "/"
            } else if e == 'n' {
                "\n"
            } else if e == 't' {
                "\t"
            } else if e == 'r' {
                "\r"
            } else if e == 'b' {
                "\u{0008}"
            } else if e == 'f' {
                "\u{000C}"
            } else {
                return None;
            };
            proof {
                reveal_strlit("\"");
                reveal_strlit("\\");
                reveal_strlit("/");
                reveal_strlit("\n");
                reveal_strlit("\t");
                reveal_strlit("\r");
                reveal_strlit("\u{0008}");
                reveal_strlit("\u{000C}");
                assert(rep@ =~= seq![unescape_char(e)->Some_0]);
            }
            match parse_string_body(s, i + 2, n) {
                Some((rest, j)) => {
                    let out = String::from_str(rep).concat(rest.as_str());
                    proof {
                        assert(out@ =~= seq![unescape_char(e)->Some_0]
                            + spec_parse_string_body(s@, i + 2)->Some_0.0);
                    }
                    Some((out, j))
                },
                None => None,
            }
        } else {
            None
        }
    } else if (c as u32) < 32 {
        None
    } else {
        let cs = s.substring_char(i, i + 1);
        proof {
            assert(cs@ =~= seq![s@[i as int]]);
        }
        match parse_string_body(s, i + 1, n) {
            Some((rest, j)) => {
                let out = String::from_str(cs).concat(rest.as_str());
                proof {
                    assert(out@ =~= seq![s@[i as int]]
                        + spec_parse_string_body(s@, i + 1)->Some_0.0);
                }
                Some((out, j))
            },
            None => None,
        }
    }
}

fn parse_number(s: &str, i: usize, n: usize) -> (r: Option<(String, usize)>)
    requires
        n == s@.len(),
        i <= n,
    ensures
        match r {
            Some(p) => i < p.1 <= n && spec_parse_number(s@, i as int) == Some((p.0@, p.1 as int)),
            None => spec_parse_number(s@, i as int) is None,
        },
{
    let st = if i < n && s.get_char(i) == '-' {
        i + 1
    } else {
        i
    };
    if st >= n {
        return None;
    }
    let c0 = s.get_char(st) as u32;
    if !(48 <= c0 && c0 <= 57) {
        return None;
    }
    let a = if s.get_char(st) == '0' {
        st + 1
    } else {
        let a0 = skip_digits(s, st + 1, n);
        proof {
            assert(spec_skip_digits(s@, st as int) == spec_skip_digits(s@, st + 1));
        }
        a0
    };
    proof {
        assert(spec_int_end(s@, st as int) == Some(a as int));
    }
    let b = if a < n && s.get_char(a) == '.' {
        if a + 1 < n {
            let c1 = s.get_char(a + 1) as u32;
            if 48 <= c1 && c1 <= 57 {
                skip_digits(s, a + 1, n)
            } else {
                return None;
            }
        } else {
            return None;
        }
    } else {
        a
    };
    proof {
        assert(spec_frac_end(s@, a as int) == Some(b as int));
    }
    let cend = if b < n && (s.get_char(b) == 'e' || s.get_char(b) == 'E') {
        let j2 = if b + 1 < n && (s.get_char(b + 1) == '+' || s.get_char(b + 1) == '-') {
            b + 2
        } else {
            b + 1
        };
        if j2 < n {
            let c2 = s.get_char(j2) as u32;
            if 48 <= c2 && c2 <= 57 {
                skip_digits(s, j2, n)
            } else {
                return None;
            }
        } else {
            return None;
        }
    } else {
        b
    };
    proof {
        assert(spec_exp_end(s@, b as int) == Some(cend as int));
    }
    let tok = s.substring_char(i, cend).to_owned();
    Some((tok, cend))
}

fn match_at(s: &str, i: usize, lit: &str, n: usize) -> (r: bool)
    requires
        n == s@.len(),
        i <= n,
    ensures
        r == spec_match_lit(s@, i as int, lit@),
{
    let m = lit.unicode_len();
    if m > n - i {
        return false;
    }
    let mut k: usize = 0;
    while k < m
        invariant
            n == s@.len(),
            m == lit@.len(),
            i + m <= n,
            k <= m,
            forall|q: int| 0 <= q < k ==> s@[i + q] == lit@[q],
        decreases m - k,
    {
        if s.get_char(i + k) != lit.get_char(k) {
            proof {
                assert(s@.subrange(i as int, i + lit@.len())[k as int] != lit@[k as int]);
            }
            return false;
        }
        k += 1;
    }
    proof {
        assert(s@.subrange(i as int, i + lit@.len()) =~= lit@);
    }
    true
}

fn parse_scalar(s: &str, i: usize, n: usize) -> (r: Option<(JsonScalar, usize)>)
    requires
        n == s@.len(),
        i <= n,
    ensures
        match r {
            Some(p) => i < p.1 <= n && spec_parse_scalar(s@, i as int) == Some(
                (p.0@, p.1 as int),
            ),
            None => spec_parse_scalar(s@, i as int) is None,
        },
{
    if i >= n {
        return None;
    }
    let c = s.get_char(i);
    if c == '"' {
        match parse_string_body(s, i + 1, n) {
            Some((content, j)) => Some((JsonScalar::Str(content), j)),
            None => None,
        }
    } else if c == '-' || (48 <= c as u32 && c as u32 <= 57) {
        match parse_number(s, i, n) {
            Some((t, j)) => Some((JsonScalar::Num(t), j)),
            None => None,
        }
    } else if match_at(s, i, "true", n) {
        proof {
            reveal_strlit("true");
        }
        Some((JsonScalar::Bool(true), i + 4))
    } else if match_at(s, i, "false", n) {
        proof {
            reveal_strlit("false");
        }
        Some((JsonScalar::Bool(false), i + 5))
    } else if match_at(s, i, "null", n) {
        proof {
            reveal_strlit("null");
        }
        Some((JsonScalar::Null, i + 4))
    } else {
        None
    }
}

/// The mathematical value of a vector of scalars.
pub open spec fn scalars_view(v: Seq<JsonScalar>) -> Seq<SpecScalar> {
    Seq::new(v.len(), |i: int| v[i]@)
}

/// The mathematical value of a vector of key-value pairs.
pub open spec fn pairs_view(ps: Seq<(String, JsonValue)>) -> Seq<(Seq<char>, SpecValue)> {
    Seq::new(ps.len(), |i: int| (ps[i].0@, ps[i].1@))
}

/// The remaining elements of an array read from `i`, after `acc` was
/// already collected: a comma before each further scalar, then the closing
/// bracket.
pub open spec fn spec_parse_array_rest(
    s: Seq<char>,
    i: int,
    acc: Seq<SpecScalar>,
) -> Option<(Seq<SpecScalar>, int)>
    decreases s.len() - i,
{
    let j = spec_skip_ws(s, i);
    if j < 0 || j >= s.len() {
        None
    } else if s[j] == ']' {
        Some((acc, j + 1))
    } else if s[j] == ',' {
        let k = spec_skip_ws(s, j + 1);
        match spec_parse_scalar(s, k) {
            Some(p) => if i < p.1 <= s.len() {
                spec_parse_array_rest(s, p.1, acc.push(p.0))
            } else {
                None
            },
            None => None,
        }
    } else {
        None
    }
}

/// A value read at `i`: an array of scalars, or a scalar.
pub open spec fn spec_parse_value(s: Seq<char>, i: int) -> Option<(SpecValue, int)> {
    if 0 <= i < s.len() && s[i] == '[' {
        let j = spec_skip_ws(s, i + 1);
        if 0 <= j < s.len() && s[j] == ']' {
            Some((SpecValue::Arr(Seq::empty()), j + 1))
        } else {
            match spec_parse_scalar(s, j) {
                Some(p) => if i < p.1 <= s.len() {
                    match spec_parse_array_rest(s, p.1, seq![p.0]) {
                        Some(q) => Some((SpecValue::Arr(q.0), q.1)),
                        None => None,
                    }
                } else {
                    None
                },
                None => None,
            }
        }
    } else {
        match spec_parse_scalar(s, i) {
            Some(p) => Some((SpecValue::Scalar(p.0), p.1)),
            None => None,
        }
    }
}

/// A key-value pair read at `i`: a string key, a colon, a value, with
/// whitespace between the parts.
pub open spec fn spec_parse_pair(s: Seq<char>, i: int) -> Option<((Seq<char>, SpecValue), int)> {
    let j = spec_skip_ws(s, i);
    if 0 <= j < s.len() && s[j] == '"' {
        match spec_parse_string_body(s, j + 1) {
            Some(kp) => {
                let b = spec_skip_ws(s, kp.1);
                if 0 <= b < s.len() && s[b] == ':' {
                    let c = spec_skip_ws(s, b + 1);
                    match spec_parse_value(s, c) {
                        Some(vp) => Some(((kp.0, vp.0), vp.1)),
                        None => None,
                    }
                } else {
                    None
                }
            },
            None => None,
        }
    } else {
        None
    }
}

/// The remaining members of an object read from `i`, after `acc` was
/// already collected.
pub open spec fn spec_parse_members(
    s: Seq<char>,
    i: int,
    acc: Seq<(Seq<char>, SpecValue)>,
) -> Option<(Seq<(Seq<char>, SpecValue)>, int)>
    decreases s.len() - i,
{
    let j = spec_skip_ws(s, i);
    if j < 0 || j >= s.len() {
        None
    } else if s[j] == '}' {
        Some((acc, j + 1))
    } else if s[j] == ',' {
        match spec_parse_pair(s, j + 1) {
            Some(p) => if i < p.1 <= s.len() {
                spec_parse_members(s, p.1, acc.push(p.0))
            } else {
                None
            },
            None => None,
        }
    } else {
        None
    }
}

/// One whole flat object, with nothing but whitespace around it: its
/// members in written order, or nothing if the text is not such an object.
pub open spec fn spec_parse_object(s: Seq<char>) -> Option<Seq<(Seq<char>, SpecValue)>> {
    let i = spec_skip_ws(s, 0);
    if 0 <= i < s.len() && s[i] == '{' {
        let j = spec_skip_ws(s, i + 1);
        if 0 <= j < s.len() && s[j] == '}' {
            if spec_skip_ws(s, j + 1) == s.len() {
                Some(Seq::empty())
            } else {
                None
            }
        } else {
            match spec_parse_pair(s, i + 1) {
                Some(p) => if i < p.1 <= s.len() {
                    match spec_parse_members(s, p.1, seq![p.0]) {
                        Some(q) => if spec_skip_ws(s, q.1) == s.len() {
                            Some(q.0)
                        } else {
                            None
                        },
                        None => None,
                    }
                } else {
                    None
                },
                None => None,
            }
        }
    } else {
        None
    }
}

fn parse_array_rest(s: &str, i: usize, n: usize, acc: Vec<JsonScalar>) -> (r: Option<
    (Vec<JsonScalar>, usize),
>)
    requires
        n == s@.len(),
        i <= n,
    ensures
        match r {
            Some(p) => i < p.1 <= n && spec_parse_array_rest(s@, i as int, scalars_view(acc@))
                == Some((scalars_view(p.0@), p.1 as int)),
            None => spec_parse_array_rest(s@, i as int, scalars_view(acc@)) is None,
        },
    decreases n - i,
{
    let ghost a0 = scalars_view(acc@);
    let j = skip_ws(s, i, n);
    if j >= n {
        return None;
    }
    let c = s.get_char(j);
    if c == ']' {
        return Some((acc, j + 1));
    }
    if c == ',' {
        let k = skip_ws(s, j + 1, n);
        match parse_scalar(s, k, n) {
            Some((v, e)) => {
                let ghost vv = v@;
                let mut acc2 = acc;
                acc2.push(v);
                proof {
                    assert(scalars_view(acc2@) =~= a0.push(vv));
                }
                parse_array_rest(s, e, n, acc2)
            },
            None => None,
        }
    } else {
        None
    }
}

fn parse_value(s: &str, i: usize, n: usize) -> (r: Option<(JsonValue, usize)>)
    requires
        n == s@.len(),
        i <= n,
    ensures
        match r {
            Some(p) => i < p.1 <= n && spec_parse_value(s@, i as int) == Some(
                (p.0@, p.1 as int),
            ),
            None => spec_parse_value(s@, i as int) is None,
        },
{
    if i < n && s.get_char(i) == '[' {
        let j = skip_ws(s, i + 1, n);
        if j < n && s.get_char(j) == ']' {
            let out = JsonValue::Arr(Vec::new());
            proof {
                assert(out@ =~= SpecValue::Arr(Seq::<SpecScalar>::empty()));
            }
            return Some((out, j + 1));
        }
        match parse_scalar(s, j, n) {
            Some((v, e)) => {
                let ghost vv = v@;
                let mut acc: Vec<JsonScalar> = Vec::new();
                acc.push(v);
                proof {
                    assert(scalars_view(acc@) =~= seq![vv]);
                }
                match parse_array_rest(s, e, n, acc) {
                    Some((a, f)) => {
                        let out = JsonValue::Arr(a);
                        proof {
                            assert(out@ =~= SpecValue::Arr(
                                spec_parse_array_rest(s@, e as int, seq![vv])->Some_0.0,
                            ));
                        }
                        Some((out, f))
                    },
                    None => None,
                }
            },
            None => None,
        }
    } else {
        match parse_scalar(s, i, n) {
            Some((v, e)) => Some((JsonValue::Scalar(v), e)),
            None => None,
        }
    }
}

fn parse_pair(s: &str, i: usize, n: usize) -> (r: Option<((String, JsonValue), usize)>)
    requires
        n == s@.len(),
        i <= n,
    ensures
        match r {
            Some(p) => i < p.1 <= n && spec_parse_pair(s@, i as int) == Some(
                ((p.0.0@, p.0.1@), p.1 as int),
            ),
            None => spec_parse_pair(s@, i as int) is None,
        },
{
    let j = skip_ws(s, i, n);
    if j < n && s.get_char(j) == '"' {
        match parse_string_body(s, j + 1, n) {
            Some((key, a)) => {
                let b = skip_ws(s, a, n);
                if b < n && s.get_char(b) == ':' {
                    let c = skip_ws(s, b + 1, n);
                    match parse_value(s, c, n) {
                        Some((v, e)) => Some(((key, v), e)),
                        None => None,
                    }
                } else {
                    None
                }
            },
            None => None,
        }
    } else {
        None
    }
}

fn parse_members(s: &str, i: usize, n: usize, acc: Vec<(String, JsonValue)>) -> (r: Option<
    (Vec<(String, JsonValue)>, usize),
>)
    requires
        n == s@.len(),
        i <= n,
    ensures
        match r {
            Some(p) => i < p.1 <= n && spec_parse_members(s@, i as int, pairs_view(acc@)) == Some(
                (pairs_view(p.0@), p.1 as int),
            ),
            None => spec_parse_members(s@, i as int, pairs_view(acc@)) is None,
        },
    decreases n - i,
{
    let ghost a0 = pairs_view(acc@);
    let j = skip_ws(s, i, n);
    if j >= n {
        return None;
    }
    let c = s.get_char(j);
    if c == '}' {
        return Some((acc, j + 1));
    }
    if c == ',' {
        match parse_pair(s, j + 1, n) {
            Some((p, e)) => {
                let ghost pv = (p.0@, p.1@);
                let mut acc2 = acc;
                acc2.push(p);
                proof {
                    assert(pairs_view(acc2@) =~= a0.push(pv));
                }
                parse_members(s, e, n, acc2)
            },
            None => None,
        }
    } else {
        None
    }
}

/// Reads one whole flat JSON object, surrounded by nothing but
/// whitespace, into its members in written order. The result is exactly
/// what the spec grammar denotes for the input.
pub fn parse_object(s: &str) -> (r: Option<Vec<(String, JsonValue)>>)
    ensures
        match r {
            Some(ps) => spec_parse_object(s@) == Some(pairs_view(ps@)),
            None => spec_parse_object(s@) is None,
        },
{
    let n = s.unicode_len();
    let i = skip_ws(s, 0, n);
    if !(i < n && s.get_char(i) == '{') {
        return None;
    }
    let j = skip_ws(s, i + 1, n);
    if j < n && s.get_char(j) == '}' {
        if skip_ws(s, j + 1, n) == n {
            let out: Vec<(String, JsonValue)> = Vec::new();
            proof {
                assert(pairs_view(out@) =~= Seq::<(Seq<char>, SpecValue)>::empty());
            }
            return Some(out);
        } else {
            return None;
        }
    }
    match parse_pair(s, i + 1, n) {
        Some((p, e)) => {
            let ghost pv = (p.0@, p.1@);
            let mut acc: Vec<(String, JsonValue)> = Vec::new();
            acc.push(p);
            proof {
                assert(pairs_view(acc@) =~= seq![pv]);
            }
            match parse_members(s, e, n, acc) {
                Some((ps, f)) => {
                    if skip_ws(s, f, n) == n {
                        Some(ps)
                    } else {
                        None
                    }
                },
                None => None,
            }
        },
        None => None,
    }
}

} // verus!
