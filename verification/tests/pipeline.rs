//! End-to-end tests: the processor over the in-memory relation, the query
//! builders, and full runs over batches of lines.

use topngx::extract::{FieldValue, Record};
use topngx::processor::{generate_processor, Processor};
use topngx::queries::{
    avg_subcommand, default_query, print_subcommand, query_subcommand, sum_subcommand,
    top_subcommand,
};
use topngx::{parse_input, run, format_to_pattern, TopError};

fn fields(names: &[&str]) -> Vec<String> {
    names.iter().map(|s| s.to_string()).collect()
}

fn combined_lines() -> Vec<String> {
    vec![
        "1.2.3.4 - - [10/Oct/2000:13:55:36 -0700] \"GET /a HTTP/1.0\" 200 100 \"-\" \"ua\"".to_string(),
        "1.2.3.5 - - [10/Oct/2000:13:55:37 -0700] \"GET /a HTTP/1.0\" 201 200 \"-\" \"ua\"".to_string(),
        "1.2.3.6 - - [10/Oct/2000:13:55:38 -0700] \"GET /b HTTP/1.0\" 500 300 \"-\" \"ua\"".to_string(),
    ]
}

fn row_count(p: &Processor) -> i64 {
    p.conn
        .query_row("SELECT COUNT(1) FROM log", [], |r| r.get::<_, i64>(0))
        .unwrap()
}

#[test]
fn avg_query_text() {
    let qs = avg_subcommand(&fields(&["a", "b"]));
    assert_eq!(qs, vec!["SELECT AVG(a), AVG(b) FROM log".to_string()]);
}

#[test]
fn sum_query_text() {
    let qs = sum_subcommand(&fields(&["bytes_sent"]));
    assert_eq!(qs, vec!["SELECT SUM(bytes_sent) FROM log".to_string()]);
}

#[test]
fn print_query_text() {
    let qs = print_subcommand(&fields(&["a", "b"]));
    assert_eq!(qs, vec!["SELECT a, b FROM log GROUP BY a, b".to_string()]);
}

#[test]
fn top_query_text() {
    let qs = top_subcommand(&fields(&["f", "g"]), 5);
    assert_eq!(
        qs,
        vec![
            "SELECT f, COUNT(1) AS count FROM log GROUP BY f ORDER BY count DESC LIMIT 5"
                .to_string(),
            "SELECT g, COUNT(1) AS count FROM log GROUP BY g ORDER BY count DESC LIMIT 5"
                .to_string(),
        ]
    );
}

#[test]
fn query_subcommand_passes_through() {
    let qs = query_subcommand("SELECT 1".to_string());
    assert_eq!(qs, vec!["SELECT 1".to_string()]);
}

#[test]
fn default_query_text() {
    assert_eq!(
        default_query("request_path", 1, "count", 10),
        "SELECT request_path, COUNT(1) AS count, AVG(bytes_sent) AS avg_bytes_sent FROM log \
         GROUP BY request_path HAVING count >= 1 ORDER BY count DESC LIMIT 10"
    );
}

#[test]
fn processor_rejects_unknown_field() {
    let r = Processor::new(fields(&["status", "bogus_field"]), vec![]);
    match r {
        Err(TopError::FieldError(m)) => assert!(m.contains("bogus_field")),
        _ => panic!("expected FieldError"),
    }
}

#[test]
fn processor_accepts_derived_and_registry_fields() {
    let p = Processor::new(
        fields(&["status_type", "bytes_sent", "request_path", "remote_addr"]),
        vec![],
    );
    assert!(p.is_ok());
}

#[test]
fn generate_processor_validates_before_reading_input() {
    let r = generate_processor("nonexistent_column", 1, "count", 10, None, None);
    match r {
        Err(TopError::FieldError(_)) => {}
        _ => panic!("expected FieldError"),
    }
}

#[test]
fn insert_then_count() {
    let mut p = Processor::new(fields(&["status"]), vec![]).unwrap();
    assert_eq!(row_count(&p), 0);
    let records = vec![
        Record { values: vec![FieldValue::Text("200".to_string())] },
        Record { values: vec![FieldValue::Text("404".to_string())] },
    ];
    p.process(records).unwrap();
    assert_eq!(row_count(&p), 2);
}

#[test]
fn process_empty_batch_is_ok() {
    let mut p = Processor::new(fields(&["status"]), vec![]).unwrap();
    p.process(vec![]).unwrap();
    assert_eq!(row_count(&p), 0);
}

#[test]
fn report_with_no_queries_is_ok() {
    let mut p = Processor::new(fields(&["status"]), vec![]).unwrap();
    let results = p.report().unwrap();
    assert!(results.is_empty());
}

#[test]
fn invalid_query_fails_and_leaves_rows() {
    let mut p = Processor::new(
        fields(&["status"]),
        vec!["SELECT FROM WHERE".to_string()],
    )
    .unwrap();
    let records = vec![
        Record { values: vec![FieldValue::Text("200".to_string())] },
        Record { values: vec![FieldValue::Text("500".to_string())] },
    ];
    p.process(records).unwrap();
    assert_eq!(row_count(&p), 2);
    match p.report() {
        Err(TopError::QueryError(_)) => {}
        _ => panic!("expected QueryError"),
    }
    assert_eq!(row_count(&p), 2);
}

#[test]
fn non_utf8_text_cell_is_an_error_not_a_crash() {
    let mut p = Processor::new(
        fields(&["status"]),
        vec!["SELECT CAST(x'ff' AS TEXT) FROM log".to_string()],
    )
    .unwrap();
    let records = vec![Record { values: vec![FieldValue::Text("200".to_string())] }];
    p.process(records).unwrap();
    match p.report() {
        Err(TopError::QueryError(_)) => {}
        other => panic!("expected QueryError, got {:?}", other.map(|_| ())),
    }
    assert_eq!(row_count(&p), 1);
}

#[test]
fn non_matching_lines_reach_no_aggregation() {
    let cp = format_to_pattern("combined").unwrap();
    let mut p = Processor::new(fields(&["status_type"]), vec![]).unwrap();
    let mut lines = combined_lines();
    lines.push("garbage that matches nothing".to_string());
    parse_input(&lines, &cp, &mut p).unwrap();
    assert_eq!(row_count(&p), 3);
}

#[test]
fn end_to_end_top_and_avg() {
    let lines = combined_lines();
    let f = fields(&["request_path"]);
    let queries = top_subcommand(&f, 10);
    let results = run(
        "combined",
        "request_path",
        1,
        "count",
        10,
        Some(f),
        Some(queries),
        &lines,
    )
    .unwrap();
    assert_eq!(results.len(), 1);
    let top = &results[0];
    assert_eq!(top.columns, vec!["request_path".to_string(), "count".to_string()]);
    assert_eq!(top.rows[0], vec!["GET /a HTTP/1.0".to_string(), "2".to_string()]);
    assert_eq!(top.rows[1], vec!["GET /b HTTP/1.0".to_string(), "1".to_string()]);

    let f = fields(&["status_type"]);
    let queries = avg_subcommand(&f);
    let results = run(
        "combined",
        "request_path",
        1,
        "count",
        10,
        Some(f),
        Some(queries),
        &lines,
    )
    .unwrap();
    // Status classes 2, 2 and 5 have mean 3.
    assert_eq!(results[0].rows, vec![vec!["3".to_string()]]);
}

#[test]
fn end_to_end_sum() {
    let lines = combined_lines();
    let f = fields(&["bytes_sent"]);
    let queries = sum_subcommand(&f);
    let results = run(
        "combined",
        "request_path",
        1,
        "count",
        10,
        Some(f),
        Some(queries),
        &lines,
    )
    .unwrap();
    assert_eq!(results[0].rows, vec![vec!["600".to_string()]]);
}

#[test]
fn end_to_end_print_collapses_duplicates() {
    let lines = combined_lines();
    let f = fields(&["request_path"]);
    let queries = print_subcommand(&f);
    let results = run(
        "combined",
        "request_path",
        1,
        "count",
        10,
        Some(f),
        Some(queries),
        &lines,
    )
    .unwrap();
    assert_eq!(results[0].rows.len(), 2);
}

#[test]
fn end_to_end_default_report() {
    let lines = combined_lines();
    let results = run("combined", "request_path", 1, "count", 10, None, None, &lines).unwrap();
    assert_eq!(results.len(), 1);
    let r = &results[0];
    assert_eq!(
        r.columns,
        vec!["request_path".to_string(), "count".to_string(), "avg_bytes_sent".to_string()]
    );
    assert_eq!(r.rows[0][0], "GET /a HTTP/1.0");
    assert_eq!(r.rows[0][1], "2");
    assert_eq!(r.rows[0][2], "150");
    assert_eq!(r.rows[1][0], "GET /b HTTP/1.0");
}

#[test]
fn end_to_end_having_filters_small_groups() {
    let lines = combined_lines();
    let results = run("combined", "request_path", 2, "count", 10, None, None, &lines).unwrap();
    assert_eq!(results[0].rows.len(), 1);
    assert_eq!(results[0].rows[0][0], "GET /a HTTP/1.0");
}

#[test]
fn run_rejects_bad_format() {
    let lines: Vec<String> = vec![];
    match run("broken$", "request_path", 1, "count", 10, None, None, &lines) {
        Err(TopError::FormatError(_)) => {}
        _ => panic!("expected FormatError"),
    }
}

#[test]
fn error_messages_are_exposed() {
    let e = TopError::QueryError("boom".to_string());
    assert_eq!(e.message(), "boom");
}

#[test]
fn custom_query_end_to_end() {
    let lines = combined_lines();
    let f = fields(&["status_type", "bytes_sent"]);
    let queries = query_subcommand(
        "SELECT MAX(bytes_sent) FROM log WHERE status_type = 2".to_string(),
    );
    let results = run(
        "combined",
        "request_path",
        1,
        "count",
        10,
        Some(f),
        Some(queries),
        &lines,
    )
    .unwrap();
    assert_eq!(results[0].rows, vec![vec!["200".to_string()]]);
}
