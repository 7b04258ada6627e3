//! The record extractor: applies a compiled pattern to one input line and
//! produces one typed value per requested field, with the derived-field
//! rules and the permissive fallback coercion.
//!
//! A line that does not match yields nothing.  On a match no field can
//! fail: a missing capture becomes the empty string, an unparseable number
//! becomes zero.

use vstd::prelude::*;

use crate::pattern::{CompiledPattern, opt_str_view, spec_group_capture, spec_line_matches};
use crate::strutil::{find_string, str_eq, views_of};

verus! {

/// The model of one typed scalar: a text or an integer.
pub enum FieldValueModel {
    Text(Seq<char>),
    Int(int),
}

/// One typed scalar in a record: a string, or a 16- or 32-bit unsigned
/// integer.
#[derive(Debug, PartialEq)]
pub enum FieldValue {
    Text(String),
    U16(u16),
    U32(u32),
}

impl View for FieldValue {
    type V = FieldValueModel;

    open spec fn view(&self) -> FieldValueModel {
        match self {
            FieldValue::Text(s) => FieldValueModel::Text(s@),
            FieldValue::U16(n) => FieldValueModel::Int(*n as int),
            FieldValue::U32(n) => FieldValueModel::Int(*n as int),
        }
    }
}

/// One extracted record: one value per requested field, in field order.
#[derive(Debug)]
pub struct Record {
    pub values: Vec<FieldValue>,
}

impl View for Record {
    type V = Seq<FieldValueModel>;

    open spec fn view(&self) -> Seq<FieldValueModel> {
        self.values@.map_values(|v: FieldValue| v@)
    }
}

/// Whether `c` is a decimal digit.
pub open spec fn is_digit(c: char) -> bool {
    48 <= (c as u32) < 58
}

/// The value of one decimal digit.
pub open spec fn digit_val(c: char) -> nat {
    (c as u32 - 48) as nat
}

/// Whether `s` is all decimal digits.
pub open spec fn all_digits(s: Seq<char>) -> bool {
    forall|j: int| 0 <= j < s.len() ==> is_digit(#[trigger] s[j])
}

/// The number the digit string stands for.
pub open spec fn digits_value(s: Seq<char>) -> nat
    decreases s.len(),
{
    if s.len() == 0 {
        0
    } else {
        digits_value(s.drop_last()) * 10 + digit_val(s.last())
    }
}

/// The unsigned integer `s` reads as: an optional leading `+`, then one or
/// more digits.  `None` when `s` is empty, holds any other character, or a
/// leading sign other than `+` (so a negative number never parses).
pub open spec fn spec_parse_uint(s: Seq<char>) -> Option<nat> {
    let t = if s.len() > 0 && s[0] == '+' {
        s.skip(1)
    } else {
        s
    };
    if t.len() > 0 && all_digits(t) {
        Some(digits_value(t))
    } else {
        None
    }
}

/// The permissive reading of `s` as an unsigned integer no larger than
/// `cap`: the parsed value, or zero when `s` does not parse or the value
/// does not fit.
pub open spec fn spec_uint_or_zero(s: Seq<char>, cap: nat) -> nat {
    match spec_parse_uint(s) {
        Some(v) => if v <= cap {
            v
        } else {
            0
        },
        None => 0,
    }
}

/// The HTTP status class of a captured status text: the text read as an
/// unsigned 16-bit integer with fallback zero, divided by 100.
pub open spec fn spec_status_type(s: Seq<char>) -> int {
    spec_uint_or_zero(s, 0xffff) as int / 100
}

/// The captured byte count read as an unsigned 32-bit integer with
/// fallback zero.
pub open spec fn spec_bytes_sent(s: Seq<char>) -> int {
    spec_uint_or_zero(s, 0xffff_ffff) as int
}

/// Appending digits to a digit string never shrinks its value.
proof fn lemma_digits_value_monotone(t: Seq<char>, k: int)
    requires
        0 <= k <= t.len(),
        all_digits(t),
    ensures
        digits_value(t) >= digits_value(t.take(k)),
    decreases t.len() - k,
{
    if k < t.len() {
        lemma_digits_value_monotone(t, k + 1);
        assert(t.take(k + 1).drop_last() =~= t.take(k));
        assert(digits_value(t.take(k + 1)) >= digits_value(t.take(k)));
    } else {
        assert(t.take(k) =~= t);
    }
}

/// Reads `s` as an unsigned integer of at most `cap`, with fallback zero.
fn parse_uint_capped(s: &str, cap: u64) -> (r: u64)
    requires
        cap <= 0xffff_ffff,
    ensures
        r == spec_uint_or_zero(s@, cap as nat),
{
    let n = s.unicode_len();
    let start: usize = if n > 0 && s.get_char(0) == '+' {
        1
    } else {
        0
    };
    let ghost t = if s@.len() > 0 && s@[0] == '+' {
        s@.skip(1)
    } else {
        s@
    };
    proof {
        assert(t =~= s@.skip(start as int));
    }
    if start >= n {
        return 0;
    }
    let mut acc: u64 = 0;
    let mut i: usize = start;
    while i < n
        invariant
            start <= i <= n,
            n == s@.len(),
            start <= 1,
            t == s@.skip(start as int),
            t == (if s@.len() > 0 && s@[0] == '+' {
                s@.skip(1)
            } else {
                s@
            }),
            cap <= 0xffff_ffff,
            forall|j: int| start <= j < i ==> is_digit(#[trigger] s@[j]),
            acc == digits_value(s@.subrange(start as int, i as int)),
            acc <= cap,
        decreases n - i,
    {
        let c = s.get_char(i);
        let u = c as u32;
        if !(48 <= u && u < 58) {
            proof {
                assert(t[i - start] == s@[i as int]);
                assert(!is_digit(t[i - start]));
                assert(!all_digits(t));
                assert(spec_parse_uint(s@) is None);
            }
            return 0;
        }
        let d = (u - 48) as u64;
        let nacc = acc * 10 + d;
        proof {
            let sub = s@.subrange(start as int, i + 1);
            assert(sub.drop_last() =~= s@.subrange(start as int, i as int));
            assert(sub.last() == s@[i as int]);
            assert(digit_val(s@[i as int]) == d as nat);
            assert(digits_value(sub) == acc * 10 + d);
        }
        if nacc > cap {
            proof {
                if all_digits(t) {
                    assert(s@.subrange(start as int, i + 1) =~= t.take(i + 1 - start));
                    lemma_digits_value_monotone(t, i + 1 - start);
                    assert(digits_value(t) >= nacc);
                    assert(t.len() > 0);
                    assert(spec_parse_uint(s@) == Some(digits_value(t)));
                } else {
                    assert(spec_parse_uint(s@) is None);
                }
            }
            return 0;
        }
        acc = nacc;
        i += 1;
    }
    proof {
        assert(s@.subrange(start as int, n as int) =~= t);
        assert(t.len() > 0);
        assert forall|j: int| 0 <= j < t.len() implies is_digit(#[trigger] t[j]) by {
            assert(t[j] == s@[j + start]);
        }
    }
    acc
}

/// The HTTP status class of a captured status text: zero when it is
/// missing or unparseable, its value divided by 100 otherwise.
pub fn status_type(status: &str) -> (r: u16)
    ensures
        r == spec_status_type(status@),
{
    let v = parse_uint_capped(status, 0xffff);
    (v as u16) / 100
}

/// The captured byte count, zero when missing, negative or unparseable.
pub fn bytes_sent(s: &str) -> (r: u32)
    ensures
        r == spec_bytes_sent(s@),
{
    parse_uint_capped(s, 0xffff_ffff) as u32
}

/// What the named capture contributes to a record: the matched text when
/// the pattern defines the group and it took part in the match, the empty
/// string otherwise.
pub open spec fn spec_capture_or_empty(
    p: Seq<char>,
    names: Seq<Seq<char>>,
    line: Seq<char>,
    name: Seq<char>,
) -> Seq<char> {
    if names.contains(name) {
        match spec_group_capture(p, line, name) {
            Some(s) => s,
            None => Seq::empty(),
        }
    } else {
        Seq::empty()
    }
}

/// The derived request path: the `request_uri` capture when the pattern
/// defines it and it matched, else the full `request` capture, else empty.
pub open spec fn spec_request_path(p: Seq<char>, names: Seq<Seq<char>>, line: Seq<char>) -> Seq<
    char,
> {
    if names.contains("request_uri"@) {
        match spec_group_capture(p, line, "request_uri"@) {
            Some(u) => u,
            None => spec_capture_or_empty(p, names, line, "request"@),
        }
    } else {
        spec_capture_or_empty(p, names, line, "request"@)
    }
}

/// The typed value one requested field takes from a matched line.
pub open spec fn spec_field_value(
    p: Seq<char>,
    names: Seq<Seq<char>>,
    line: Seq<char>,
    field: Seq<char>,
) -> FieldValueModel {
    if field == "status_type"@ {
        FieldValueModel::Int(spec_status_type(spec_capture_or_empty(p, names, line, "status"@)))
    } else if field == "bytes_sent"@ {
        FieldValueModel::Int(spec_bytes_sent(spec_capture_or_empty(p, names, line, "body_bytes_sent"@)))
    } else if field == "request_path"@ {
        FieldValueModel::Text(spec_request_path(p, names, line))
    } else {
        FieldValueModel::Text(spec_capture_or_empty(p, names, line, field))
    }
}

/// What extraction yields for one line: nothing when the line does not
/// match the pattern, else one typed value per requested field, in order.
pub open spec fn spec_extract(
    p: Seq<char>,
    names: Seq<Seq<char>>,
    line: Seq<char>,
    fields: Seq<Seq<char>>,
) -> Option<Seq<FieldValueModel>> {
    if spec_line_matches(p, line) {
        Some(fields.map_values(|f: Seq<char>| spec_field_value(p, names, line, f)))
    } else {
        None
    }
}

/// Looks `name` up among the capture values, yielding the matched text or
/// the empty string, as `spec_capture_or_empty` says.
fn capture_or_empty(
    caps: &Vec<Option<String>>,
    names: &Vec<String>,
    name: &str,
    Ghost(p): Ghost<Seq<char>>,
    Ghost(line): Ghost<Seq<char>>,
) -> (r: String)
    requires
        caps@.len() == names@.len(),
        forall|k: int|
            0 <= k < names@.len() ==> opt_str_view(#[trigger] caps@[k]) == spec_group_capture(
                p,
                line,
                views_of(names@)[k],
            ),
    ensures
        r@ == spec_capture_or_empty(p, views_of(names@), line, name@),
{
    match find_string(names, name) {
        Some(i) => {
            proof {
                assert(views_of(names@).contains(name@)) by {
                    assert(views_of(names@)[i as int] == name@);
                }
                assert(opt_str_view(caps@[i as int]) == spec_group_capture(p, line, name@));
            }
            match &caps[i] {
                Some(s) => s.clone(),
                None => String::new(),
            }
        },
        None => String::new(),
    }
}

/// Extracts one record from one line: nothing when the line does not match
/// the pattern; otherwise one value per requested field, applying the
/// derived-field rules (`status_type`, `bytes_sent`, `request_path`) and
/// the empty-string / zero fallbacks.
pub fn extract(cp: &CompiledPattern, line: &str, fields: &Vec<String>) -> (r: Option<Record>)
    requires
        cp.wf(),
    ensures
        match r {
            Some(rec) => spec_extract(cp.pattern@, views_of(cp.names@), line@, views_of(fields@))
                == Some(rec@),
            None => spec_extract(cp.pattern@, views_of(cp.names@), line@, views_of(fields@))
                is None,
        },
{
    let ghost p = cp.pattern@;
    let ghost gnames = views_of(cp.names@);
    let ghost gline = line@;
    let caps = match cp.captures(line) {
        None => {
            return None;
        },
        Some(c) => c,
    };
    let mut values: Vec<FieldValue> = Vec::new();
    let mut i: usize = 0;
    while i < fields.len()
        invariant
            i <= fields.len(),
            cp.wf(),
            p == cp.pattern@,
            gnames == views_of(cp.names@),
            gline == line@,
            spec_line_matches(p, gline),
            caps@.len() == cp.names@.len(),
            forall|k: int|
                0 <= k < cp.names@.len() ==> opt_str_view(#[trigger] caps@[k])
                    == spec_group_capture(p, gline, gnames[k]),
            values@.len() == i,
            forall|j: int|
                0 <= j < i ==> (#[trigger] values@[j])@ == spec_field_value(
                    p,
                    gnames,
                    gline,
                    views_of(fields@)[j],
                ),
        decreases fields.len() - i,
    {
        proof {
            reveal_strlit("status_type");
            reveal_strlit("bytes_sent");
            reveal_strlit("request_path");
            assert("status_type"@.len() == 11);
            assert("bytes_sent"@.len() == 10);
            assert("request_path"@.len() == 12);
        }
        let f = &fields[i];
        let fv: FieldValue = if str_eq(f.as_str(), "status_type") {
            let sval = capture_or_empty(&caps, &cp.names, "status", Ghost(p), Ghost(gline));
            FieldValue::U16(status_type(sval.as_str()))
        } else if str_eq(f.as_str(), "bytes_sent") {
            let sval = capture_or_empty(&caps, &cp.names, "body_bytes_sent", Ghost(p), Ghost(gline));
            FieldValue::U32(bytes_sent(sval.as_str()))
        } else if str_eq(f.as_str(), "request_path") {
            match find_string(&cp.names, "request_uri") {
                Some(ix) => {
                    proof {
                        assert(gnames.contains("request_uri"@)) by {
                            assert(gnames[ix as int] == "request_uri"@);
                        }
                        assert(opt_str_view(caps@[ix as int]) == spec_group_capture(
                            p,
                            gline,
                            "request_uri"@,
                        ));
                    }
                    match &caps[ix] {
                        Some(u) => FieldValue::Text(u.clone()),
                        None => FieldValue::Text(
                            capture_or_empty(&caps, &cp.names, "request", Ghost(p), Ghost(gline)),
                        ),
                    }
                },
                None => FieldValue::Text(
                    capture_or_empty(&caps, &cp.names, "request", Ghost(p), Ghost(gline)),
                ),
            }
        } else {
            FieldValue::Text(capture_or_empty(&caps, &cp.names, f.as_str(), Ghost(p), Ghost(gline)))
        };
        proof {
            assert(fv@ == spec_field_value(p, gnames, gline, f@));
            assert(views_of(fields@)[i as int] == f@);
        }
        values.push(fv);
        i += 1;
    }
    proof {
        let rec = values@.map_values(|v: FieldValue| v@);
        let want = views_of(fields@).map_values(
            |ff: Seq<char>| spec_field_value(p, gnames, gline, ff),
        );
        assert(rec =~= want);
    }
    Some(Record { values })
}

/// The `request_path` rule: when the pattern defines a `request_uri`
/// capture and it took part in the match, the derived path is exactly that
/// capture; it falls back to the full `request` capture only when
/// `request_uri` is absent from the pattern or did not match.
pub proof fn lemma_request_path_prefers_uri(p: Seq<char>, names: Seq<Seq<char>>, line: Seq<char>)
    ensures
        match spec_group_capture(p, line, "request_uri"@) {
            Some(u) => names.contains("request_uri"@) ==> spec_field_value(
                p,
                names,
                line,
                "request_path"@,
            ) == FieldValueModel::Text(u),
            None => spec_field_value(p, names, line, "request_path"@) == FieldValueModel::Text(
                spec_capture_or_empty(p, names, line, "request"@),
            ),
        },
        !names.contains("request_uri"@) ==> spec_field_value(p, names, line, "request_path"@)
            == FieldValueModel::Text(spec_capture_or_empty(p, names, line, "request"@)),
{
    reveal_strlit("status_type");
    reveal_strlit("bytes_sent");
    reveal_strlit("request_path");
    assert("status_type"@.len() == 11);
    assert("bytes_sent"@.len() == 10);
    assert("request_path"@.len() == 12);
}

/// A line that does not match the compiled pattern produces no record at
/// all, whatever the requested fields are.
pub proof fn lemma_no_match_no_record(
    p: Seq<char>,
    names: Seq<Seq<char>>,
    line: Seq<char>,
    fields: Seq<Seq<char>>,
)
    ensures
        !spec_line_matches(p, line) ==> spec_extract(p, names, line, fields) is None,
{
}

} // verus!
