//! The variable registry: the catalog of known log-format variables, each
//! with a matching fragment and a semantic kind.  Lookup always succeeds;
//! unknown names fall back to a permissive non-greedy fragment of kind `Raw`.

use vstd::prelude::*;

use crate::strutil::str_eq;

verus! {

/// The semantic kind of a log-format variable.
#[derive(Clone, Copy, Debug, PartialEq, Eq, Structural)]
pub enum VarKind {
    Text,
    Integer,
    QuotedString,
    IpAddress,
    Timestamp,
    Raw,
}

/// One known (or synthesized) log-format variable: its name, the pattern
/// fragment that matches one occurrence of it, and its kind.
pub struct VariableSpec {
    pub name: String,
    pub matcher: String,
    pub kind: VarKind,
}

/// Whether `name` is one of the registered variable names.
pub open spec fn spec_is_known(name: Seq<char>) -> bool {
    ||| name == "remote_addr"@
    ||| name == "remote_user"@
    ||| name == "time_local"@
    ||| name == "request"@
    ||| name == "status"@
    ||| name == "body_bytes_sent"@
    ||| name == "http_referer"@
    ||| name == "http_user_agent"@
    ||| name == "http_x_forwarded_for"@
    ||| name == "request_uri"@
    ||| name == "remote_port"@
    ||| name == "request_length"@
    ||| name == "request_time"@
}

/// The matching fragment registered for `name`; the permissive non-greedy
/// fallback for unknown names.
pub open spec fn spec_matcher(name: Seq<char>) -> Seq<char> {
    if name == "remote_addr"@ {
        "[0-9a-fA-F.:]+"@
    } else if name == "remote_user"@ {
        "[^ ]+"@
    } else if name == "time_local"@ {
        "[^\\]]+"@
    } else if name == "request"@ {
        "[^\"]*"@
    } else if name == "status"@ {
        "\\d+"@
    } else if name == "body_bytes_sent"@ {
        "\\d+"@
    } else if name == "http_referer"@ {
        "[^\"]*"@
    } else if name == "http_user_agent"@ {
        "[^\"]*"@
    } else if name == "http_x_forwarded_for"@ {
        "[^\"]*"@
    } else if name == "request_uri"@ {
        "[^ ]+"@
    } else if name == "remote_port"@ {
        "\\d+"@
    } else if name == "request_length"@ {
        "\\d+"@
    } else if name == "request_time"@ {
        "[0-9.]+"@
    } else {
        ".*?"@
    }
}

/// The kind registered for `name`; `Raw` for unknown names.
pub open spec fn spec_kind(name: Seq<char>) -> VarKind {
    if name == "remote_addr"@ {
        VarKind::IpAddress
    } else if name == "remote_user"@ {
        VarKind::Text
    } else if name == "time_local"@ {
        VarKind::Timestamp
    } else if name == "request"@ {
        VarKind::QuotedString
    } else if name == "status"@ {
        VarKind::Integer
    } else if name == "body_bytes_sent"@ {
        VarKind::Integer
    } else if name == "http_referer"@ {
        VarKind::QuotedString
    } else if name == "http_user_agent"@ {
        VarKind::QuotedString
    } else if name == "http_x_forwarded_for"@ {
        VarKind::QuotedString
    } else if name == "request_uri"@ {
        VarKind::Text
    } else if name == "remote_port"@ {
        VarKind::Integer
    } else if name == "request_length"@ {
        VarKind::Integer
    } else if name == "request_time"@ {
        VarKind::Raw
    } else {
        VarKind::Raw
    }
}

/// Decides whether `name` is a registered variable.
pub fn is_known_variable(name: &str) -> (r: bool)
    ensures
        r == spec_is_known(name@),
{
    str_eq(name, "remote_addr") || str_eq(name, "remote_user") || str_eq(name, "time_local")
        || str_eq(name, "request") || str_eq(name, "status") || str_eq(name, "body_bytes_sent")
        || str_eq(name, "http_referer") || str_eq(name, "http_user_agent")
        || str_eq(name, "http_x_forwarded_for") || str_eq(name, "request_uri")
        || str_eq(name, "remote_port") || str_eq(name, "request_length")
        || str_eq(name, "request_time")
}

/// Looks a variable name up in the registry.  Always succeeds: an unknown
/// name yields a synthesized fallback spec of kind `Raw` whose fragment
/// matches anything, non-greedily.  The result is a function of the name
/// alone, so the kind of any name is stable across calls.
pub fn lookup(name: &str) -> (r: VariableSpec)
    ensures
        r.name@ == name@,
        r.matcher@ == spec_matcher(name@),
        r.kind == spec_kind(name@),
{
    let matcher: &str = if str_eq(name, "remote_addr") {
        "[0-9a-fA-F.:]+"
    } else if str_eq(name, "remote_user") {
        "[^ ]+"
    } else if str_eq(name, "time_local") {
        "[^\\]]+"
    } else if str_eq(name, "request") {
        "[^\"]*"
    } else if str_eq(name, "status") {
        "\\d+"
    } else if str_eq(name, "body_bytes_sent") {
        "\\d+"
    } else if str_eq(name, "http_referer") {
        "[^\"]*"
    } else if str_eq(name, "http_user_agent") {
        "[^\"]*"
    } else if str_eq(name, "http_x_forwarded_for") {
        "[^\"]*"
    } else if str_eq(name, "request_uri") {
        "[^ ]+"
    } else if str_eq(name, "remote_port") {
        "\\d+"
    } else if str_eq(name, "request_length") {
        "\\d+"
    } else if str_eq(name, "request_time") {
        "[0-9.]+"
    } else {
        ".*?"
    };
    let kind: VarKind = if str_eq(name, "remote_addr") {
        VarKind::IpAddress
    } else if str_eq(name, "remote_user") {
        VarKind::Text
    } else if str_eq(name, "time_local") {
        VarKind::Timestamp
    } else if str_eq(name, "request") {
        VarKind::QuotedString
    } else if str_eq(name, "status") {
        VarKind::Integer
    } else if str_eq(name, "body_bytes_sent") {
        VarKind::Integer
    } else if str_eq(name, "http_referer") {
        VarKind::QuotedString
    } else if str_eq(name, "http_user_agent") {
        VarKind::QuotedString
    } else if str_eq(name, "http_x_forwarded_for") {
        VarKind::QuotedString
    } else if str_eq(name, "request_uri") {
        VarKind::Text
    } else if str_eq(name, "remote_port") {
        VarKind::Integer
    } else if str_eq(name, "request_length") {
        VarKind::Integer
    } else if str_eq(name, "request_time") {
        VarKind::Raw
    } else {
        VarKind::Raw
    };
    VariableSpec { name: String::from_str(name), matcher: String::from_str(matcher), kind }
}

/// The registered names, in catalog order.
pub open spec fn spec_known_names() -> Seq<Seq<char>> {
    seq![
        "remote_addr"@,
        "remote_user"@,
        "time_local"@,
        "request"@,
        "status"@,
        "body_bytes_sent"@,
        "http_referer"@,
        "http_user_agent"@,
        "http_x_forwarded_for"@,
        "request_uri"@,
        "remote_port"@,
        "request_length"@,
        "request_time"@,
    ]
}

/// Lists the registered variable names, in catalog order.
pub fn known_names() -> (r: Vec<String>)
    ensures
        crate::strutil::views_of(r@) == spec_known_names(),
{
    let mut v: Vec<String> = Vec::new();
    v.push(String::from_str("remote_addr"));
    v.push(String::from_str("remote_user"));
    v.push(String::from_str("time_local"));
    v.push(String::from_str("request"));
    v.push(String::from_str("status"));
    v.push(String::from_str("body_bytes_sent"));
    v.push(String::from_str("http_referer"));
    v.push(String::from_str("http_user_agent"));
    v.push(String::from_str("http_x_forwarded_for"));
    v.push(String::from_str("request_uri"));
    v.push(String::from_str("remote_port"));
    v.push(String::from_str("request_length"));
    v.push(String::from_str("request_time"));
    proof {
        assert(crate::strutil::views_of(v@) =~= spec_known_names());
    }
    v
}

/// Lookup is deterministic: any two results that meet `lookup`'s contract
/// for the same name carry the same kind (and the same matcher), so the
/// kind of a variable is stable across calls.
pub proof fn lemma_lookup_kind_stable(r1: VariableSpec, r2: VariableSpec, name: Seq<char>)
    requires
        r1.kind == spec_kind(name),
        r1.matcher@ == spec_matcher(name),
        r2.kind == spec_kind(name),
        r2.matcher@ == spec_matcher(name),
    ensures
        r1.kind == r2.kind,
        r1.matcher@ == r2.matcher@,
{
}

/// Every registered name satisfies `spec_is_known`, and the other way round:
/// the catalog list and the lookup predicate name the same set.
pub proof fn lemma_known_names_match(name: Seq<char>)
    ensures
        spec_is_known(name) <==> spec_known_names().contains(name),
{
    if spec_is_known(name) {
        let names = spec_known_names();
        if name == "remote_addr"@ {
            assert(names.contains(name)) by { assert(names[0] == name) };
        } else if name == "remote_user"@ {
            assert(names.contains(name)) by { assert(names[1] == name) };
        } else if name == "time_local"@ {
            assert(names.contains(name)) by { assert(names[2] == name) };
        } else if name == "request"@ {
            assert(names.contains(name)) by { assert(names[3] == name) };
        } else if name == "status"@ {
            assert(names.contains(name)) by { assert(names[4] == name) };
        } else if name == "body_bytes_sent"@ {
            assert(names.contains(name)) by { assert(names[5] == name) };
        } else if name == "http_referer"@ {
            assert(names.contains(name)) by { assert(names[6] == name) };
        } else if name == "http_user_agent"@ {
            assert(names.contains(name)) by { assert(names[7] == name) };
        } else if name == "http_x_forwarded_for"@ {
            assert(names.contains(name)) by { assert(names[8] == name) };
        } else if name == "request_uri"@ {
            assert(names.contains(name)) by { assert(names[9] == name) };
        } else if name == "remote_port"@ {
            assert(names.contains(name)) by { assert(names[10] == name) };
        } else if name == "request_length"@ {
            assert(names.contains(name)) by { assert(names[11] == name) };
        } else {
            assert(names.contains(name)) by { assert(names[12] == name) };
        }
    }
}

} // verus!
