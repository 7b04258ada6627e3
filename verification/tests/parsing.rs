//! Unit tests for the registry, the format resolver, the pattern compiler
//! and the record extractor.

use topngx::extract::{bytes_sent, extract, status_type, FieldValue};
use topngx::format::resolve;
use topngx::format_to_pattern;
use topngx::available_variables;
use topngx::registry::{known_names, lookup, VarKind};
use topngx::TopError;

fn fields(names: &[&str]) -> Vec<String> {
    names.iter().map(|s| s.to_string()).collect()
}

#[test]
fn lookup_kind_is_stable_across_calls() {
    for name in ["status", "remote_addr", "request", "no_such_variable"] {
        let first = lookup(name);
        let second = lookup(name);
        assert_eq!(first.kind, second.kind);
        assert_eq!(first.matcher, second.matcher);
        assert_eq!(first.name, name);
    }
}

#[test]
fn lookup_known_kinds() {
    assert_eq!(lookup("status").kind, VarKind::Integer);
    assert_eq!(lookup("body_bytes_sent").kind, VarKind::Integer);
    assert_eq!(lookup("remote_addr").kind, VarKind::IpAddress);
    assert_eq!(lookup("time_local").kind, VarKind::Timestamp);
    assert_eq!(lookup("request").kind, VarKind::QuotedString);
}

#[test]
fn lookup_unknown_falls_back_to_raw() {
    let spec = lookup("definitely_not_registered");
    assert_eq!(spec.kind, VarKind::Raw);
    assert_eq!(spec.matcher, ".*?");
}

#[test]
fn known_names_cover_the_catalog() {
    let names = known_names();
    for required in ["remote_addr", "remote_user", "time_local", "request", "status",
        "body_bytes_sent", "http_referer", "http_user_agent"] {
        assert!(names.iter().any(|n| n == required));
    }
}

#[test]
fn resolve_rejects_unterminated_variable() {
    for bad in ["$", "a$", "foo $ bar", "x$!y"] {
        match resolve(bad) {
            Err(TopError::FormatError(_)) => {}
            other => panic!("expected FormatError, got {:?}", other.map(|_| ())),
        }
    }
}

#[test]
fn resolve_keeps_literals_and_variables() {
    let t = resolve("a b$status! $x").unwrap();
    let mut rebuilt = String::new();
    for seg in &t.segments {
        match seg {
            topngx::format::Segment::Literal(l) => rebuilt.push_str(l),
            topngx::format::Segment::Variable(v) => {
                rebuilt.push('$');
                rebuilt.push_str(v);
            }
        }
    }
    assert_eq!(rebuilt, "a b$status! $x");
}

#[test]
fn template_round_trip_captures_substituted_values() {
    let cp = format_to_pattern("t=$status;u=$remote_user").unwrap();
    let rec = extract(&cp, "t=404;u=bob", &fields(&["status", "remote_user"])).unwrap();
    assert_eq!(rec.values[0], FieldValue::Text("404".to_string()));
    assert_eq!(rec.values[1], FieldValue::Text("bob".to_string()));
}

#[test]
fn combined_round_trip_captures_substituted_values() {
    let cp = format_to_pattern("combined").unwrap();
    let line = "127.0.0.1 - frank [10/Oct/2000:13:55:36 -0700] \"GET /apache_pb.gif HTTP/1.0\" 200 2326 \"http://www.example.com/start.html\" \"Mozilla/4.08\"";
    let req = fields(&["remote_addr", "remote_user", "time_local", "request", "status",
        "body_bytes_sent", "http_referer", "http_user_agent"]);
    let rec = extract(&cp, line, &req).unwrap();
    let want = ["127.0.0.1", "frank", "10/Oct/2000:13:55:36 -0700", "GET /apache_pb.gif HTTP/1.0",
        "200", "2326", "http://www.example.com/start.html", "Mozilla/4.08"];
    for (i, w) in want.iter().enumerate() {
        assert_eq!(rec.values[i], FieldValue::Text(w.to_string()));
    }
}

#[test]
fn literal_metacharacters_match_only_themselves() {
    let cp = format_to_pattern("a.b($status)").unwrap();
    assert!(extract(&cp, "a.b(200)", &fields(&["status"])).is_some());
    // An unescaped `.` would let any character through; an unescaped `(`
    // would change the grouping.  Neither may happen.
    assert!(extract(&cp, "aXb(200)", &fields(&["status"])).is_none());
    assert!(extract(&cp, "a.b200", &fields(&["status"])).is_none());

    let cp = format_to_pattern("[$status]*").unwrap();
    assert!(extract(&cp, "[404]*", &fields(&["status"])).is_some());
    assert!(extract(&cp, "[404]", &fields(&["status"])).is_none());
    assert!(extract(&cp, "404*", &fields(&["status"])).is_none());
}

#[test]
fn duplicate_variable_keeps_first_capture() {
    let cp = format_to_pattern("$status $status").unwrap();
    assert_eq!(cp.names, vec!["status".to_string()]);
    let rec = extract(&cp, "200 300", &fields(&["status"])).unwrap();
    assert_eq!(rec.values[0], FieldValue::Text("200".to_string()));
}

#[test]
fn unknown_variable_matches_permissively() {
    let cp = format_to_pattern("$foo!").unwrap();
    let rec = extract(&cp, "abc!", &fields(&["foo"])).unwrap();
    assert_eq!(rec.values[0], FieldValue::Text("abc".to_string()));
}

#[test]
fn bad_group_name_is_a_pattern_error() {
    match format_to_pattern("$1abc") {
        Err(TopError::PatternError(_)) => {}
        other => panic!("expected PatternError, got {:?}", other.map(|_| ())),
    }
}

#[test]
fn status_type_divides_by_hundred() {
    assert_eq!(status_type("404"), 4);
    assert_eq!(status_type(""), 0);
    assert_eq!(status_type("abc"), 0);
    assert_eq!(status_type("200"), 2);
    assert_eq!(status_type("99"), 0);
    assert_eq!(status_type("65536"), 0);
    assert_eq!(status_type("+404"), 4);
}

#[test]
fn bytes_sent_parses_with_fallback() {
    assert_eq!(bytes_sent("1234"), 1234);
    assert_eq!(bytes_sent(""), 0);
    assert_eq!(bytes_sent("-1"), 0);
    assert_eq!(bytes_sent("4294967295"), 4294967295);
    assert_eq!(bytes_sent("4294967296"), 0);
    assert_eq!(bytes_sent("12a"), 0);
}

#[test]
fn derived_fields_from_combined_line() {
    let cp = format_to_pattern("combined").unwrap();
    let line = "10.0.0.1 - - [10/Oct/2000:13:55:36 -0700] \"GET /x HTTP/1.1\" 503 999 \"-\" \"ua\"";
    let rec = extract(&cp, line, &fields(&["status_type", "bytes_sent", "request_path"])).unwrap();
    assert_eq!(rec.values[0], FieldValue::U16(5));
    assert_eq!(rec.values[1], FieldValue::U32(999));
    assert_eq!(rec.values[2], FieldValue::Text("GET /x HTTP/1.1".to_string()));
}

#[test]
fn request_path_prefers_request_uri() {
    let cp = format_to_pattern("\"$request\" $request_uri").unwrap();
    let rec = extract(&cp, "\"GET /a HTTP/1.1\" /b", &fields(&["request_path"])).unwrap();
    assert_eq!(rec.values[0], FieldValue::Text("/b".to_string()));
}

#[test]
fn request_path_falls_back_to_request() {
    let cp = format_to_pattern("\"$request\"").unwrap();
    let rec = extract(&cp, "\"GET /only HTTP/1.1\"", &fields(&["request_path"])).unwrap();
    assert_eq!(rec.values[0], FieldValue::Text("GET /only HTTP/1.1".to_string()));
}

#[test]
fn missing_capture_yields_empty_string() {
    let cp = format_to_pattern("$status").unwrap();
    let rec = extract(&cp, "200", &fields(&["remote_addr", "request_path"])).unwrap();
    assert_eq!(rec.values[0], FieldValue::Text(String::new()));
    assert_eq!(rec.values[1], FieldValue::Text(String::new()));
}

#[test]
fn non_matching_line_yields_no_record() {
    let cp = format_to_pattern("combined").unwrap();
    assert!(extract(&cp, "not an access log line", &fields(&["status_type"])).is_none());
    assert!(extract(&cp, "", &fields(&["status_type"])).is_none());
}

#[test]
fn available_variables_for_combined() {
    let s = available_variables("combined").unwrap();
    assert_eq!(
        s,
        "remote_addr, remote_user, time_local, request, status, body_bytes_sent, http_referer, http_user_agent"
    );
}

#[test]
fn empty_template_matches_only_the_empty_line() {
    let cp = format_to_pattern("").unwrap();
    assert!(extract(&cp, "", &fields(&["whatever"])).is_some());
    assert!(extract(&cp, "x", &fields(&["whatever"])).is_none());
}

#[test]
fn available_variables_collapse_duplicates_in_order() {
    assert_eq!(available_variables("$b $a $b").unwrap(), "b, a");
}

#[test]
fn available_variables_rejects_bad_template() {
    match available_variables("oops$") {
        Err(TopError::FormatError(_)) => {}
        other => panic!("expected FormatError, got {:?}", other.map(|_| ())),
    }
}
