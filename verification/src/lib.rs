//! Parses web-server access-log lines against a named or user-supplied
//! log-line format, extracts typed fields from each line, accumulates them
//! in a queryable in-memory relation, and runs aggregation queries over it.

pub mod extract;
pub mod format;
pub mod pattern;
pub mod processor;
pub mod queries;
pub mod registry;
pub mod strutil;

use vstd::prelude::*;

use crate::extract::{extract, spec_extract, FieldValueModel, Record};
use crate::format::{has_bad_dollar, segs_wf, spec_effective_template, spec_reconstruct, SegModel};
use crate::pattern::{compile, spec_full_pattern, spec_names, CompiledPattern};
use crate::processor::{records_models, Processor, QueryResult};
use crate::queries::template_variables;
use crate::strutil::{spec_join, views_of};

verus! {

/// Errors of the log-analysis pipeline, one variant per failure kind.
/// Each variant carries a human-readable message.
#[derive(Debug)]
pub enum TopError {
    /// The format identifier is neither a preset nor a parseable template.
    FormatError(String),
    /// A resolved template did not compile to a valid matching pattern.
    PatternError(String),
    /// A requested field is neither a registry variable nor a derived name.
    FieldError(String),
    /// A record could not be inserted into the relation.
    StoreError(String),
    /// A query failed at execution time.
    QueryError(String),
}

impl TopError {
    /// The error's message.
    pub fn message(&self) -> (r: &str)
        ensures
            match self {
                TopError::FormatError(m) => r@ == m@,
                TopError::PatternError(m) => r@ == m@,
                TopError::FieldError(m) => r@ == m@,
                TopError::StoreError(m) => r@ == m@,
                TopError::QueryError(m) => r@ == m@,
            },
    {
        match self {
            TopError::FormatError(m) => m.as_str(),
            TopError::PatternError(m) => m.as_str(),
            TopError::FieldError(m) => m.as_str(),
            TopError::StoreError(m) => m.as_str(),
            TopError::QueryError(m) => m.as_str(),
        }
    }
}

/// Resolves a format identifier and compiles the resulting template into a
/// line-matching pattern: the compiler pipeline up to the point where
/// lines can be matched.
pub fn format_to_pattern(format: &str) -> (r: Result<CompiledPattern, TopError>)
    ensures
        r matches Ok(cp) ==> exists|ss: Seq<SegModel>|
            {
                &&& #[trigger] segs_wf(ss)
                &&& spec_reconstruct(ss) == spec_effective_template(format@)
                &&& cp.wf()
                &&& cp.pattern@ == spec_full_pattern(ss)
                &&& views_of(cp.names@) == spec_names(ss)
            },
        r is Ok ==> !has_bad_dollar(spec_effective_template(format@)),
        r matches Err(e) ==> (e is FormatError || e is PatternError) && (e is FormatError
            <==> has_bad_dollar(spec_effective_template(format@))),
        r matches Err(e) ==> (e is PatternError ==> exists|ss: Seq<SegModel>|
            {
                &&& #[trigger] segs_wf(ss)
                &&& spec_reconstruct(ss) == spec_effective_template(format@)
                &&& !crate::pattern::regex_ok(spec_full_pattern(ss))
            }),
{
    let tpl = match crate::format::resolve(format) {
        Ok(t) => t,
        Err(e) => {
            return Err(e);
        },
    };
    let r = compile(&tpl);
    proof {
        let ss = tpl@;
        assert(segs_wf(ss) && spec_reconstruct(ss) == spec_effective_template(format@));
    }
    r
}

/// Lists the variables a format makes available to query, in order of
/// first appearance, comma-separated.
pub fn available_variables(format: &str) -> (r: Result<String, TopError>)
    ensures
        r matches Ok(s) ==> exists|ss: Seq<SegModel>|
            {
                &&& #[trigger] segs_wf(ss)
                &&& spec_reconstruct(ss) == spec_effective_template(format@)
                &&& s@ == spec_join(spec_names(ss), ", "@)
            },
        r is Ok ==> !has_bad_dollar(spec_effective_template(format@)),
        r matches Err(e) ==> e is FormatError && has_bad_dollar(spec_effective_template(format@)),
{
    let tpl = match crate::format::resolve(format) {
        Ok(t) => t,
        Err(e) => {
            return Err(e);
        },
    };
    let s = template_variables(&tpl);
    proof {
        let ss = tpl@;
        assert(segs_wf(ss) && spec_reconstruct(ss) == spec_effective_template(format@) && s@
            == spec_join(spec_names(ss), ", "@));
    }
    Ok(s)
}

/// The records the pattern extracts from the lines, in order: one per
/// matching line, none for a line that does not match.
pub open spec fn spec_extract_all(
    p: Seq<char>,
    names: Seq<Seq<char>>,
    fields: Seq<Seq<char>>,
    lines: Seq<Seq<char>>,
) -> Seq<Seq<FieldValueModel>>
    decreases lines.len(),
{
    if lines.len() == 0 {
        Seq::empty()
    } else {
        spec_extract_all(p, names, fields, lines.drop_last()) + match spec_extract(
            p,
            names,
            lines.last(),
            fields,
        ) {
            Some(rec) => seq![rec],
            None => Seq::<Seq<FieldValueModel>>::empty(),
        }
    }
}

/// A line that does not match the compiled pattern contributes nothing to
/// the extracted records, so it reaches no subsequent aggregation.
pub proof fn lemma_unmatched_line_not_counted(
    p: Seq<char>,
    names: Seq<Seq<char>>,
    fields: Seq<Seq<char>>,
    lines: Seq<Seq<char>>,
    line: Seq<char>,
)
    requires
        !crate::pattern::spec_line_matches(p, line),
    ensures
        spec_extract_all(p, names, fields, lines.push(line)) == spec_extract_all(
            p,
            names,
            fields,
            lines,
        ),
{
    assert(lines.push(line).drop_last() =~= lines);
    assert(lines.push(line).last() == line);
    assert(spec_extract_all(p, names, fields, lines.push(line)) =~= spec_extract_all(
        p,
        names,
        fields,
        lines,
    ));
}

/// Matches every line against the compiled pattern, extracts one record
/// per matching line, and inserts the records into the processor's
/// relation.  Lines that do not match are skipped silently and reach no
/// aggregation.
pub fn parse_input(lines: &Vec<String>, cp: &CompiledPattern, proc: &mut Processor) -> (r: Result<
    (),
    TopError,
>)
    requires
        cp.wf(),
        old(proc).wf(),
        old(proc).cols_synced(),
    ensures
        final(proc).wf(),
        final(proc).cols_synced(),
        final(proc).fields@ == old(proc).fields@,
        final(proc).queries@ == old(proc).queries@,
        spec_extract_all(
            cp.pattern@,
            views_of(cp.names@),
            views_of(old(proc).fields@),
            views_of(lines@),
        ).len() == 0 ==> r is Ok,
        r is Ok ==> final(proc).rows() == old(proc).rows() + spec_extract_all(
            cp.pattern@,
            views_of(cp.names@),
            views_of(old(proc).fields@),
            views_of(lines@),
        ),
        r matches Err(e) ==> e is StoreError && (final(proc).rows() == old(proc).rows() || exists|
            k: int,
        |
            0 <= k <= spec_extract_all(
                cp.pattern@,
                views_of(cp.names@),
                views_of(old(proc).fields@),
                views_of(lines@),
            ).len() && final(proc).rows() == old(proc).rows() + (#[trigger] spec_extract_all(
                cp.pattern@,
                views_of(cp.names@),
                views_of(old(proc).fields@),
                views_of(lines@),
            ).take(k))),
{
    let ghost p = cp.pattern@;
    let ghost gnames = views_of(cp.names@);
    let ghost gfields = views_of(proc.fields@);
    let mut records: Vec<Record> = Vec::new();
    let mut i: usize = 0;
    while i < lines.len()
        invariant
            i <= lines.len(),
            cp.wf(),
            p == cp.pattern@,
            gnames == views_of(cp.names@),
            gfields == views_of(proc.fields@),
            records_models(records@) == spec_extract_all(
                p,
                gnames,
                gfields,
                views_of(lines@).take(i as int),
            ),
            forall|k: int|
                0 <= k < records@.len() ==> (#[trigger] records@[k]).values@.len()
                    == proc.fields@.len(),
        decreases lines.len() - i,
    {
        let ghost old_models = records_models(records@);
        proof {
            assert(views_of(lines@).take(i + 1).drop_last() =~= views_of(lines@).take(i as int));
            assert(views_of(lines@).take(i + 1).last() == lines@[i as int]@);
        }
        match extract(cp, lines[i].as_str(), &proc.fields) {
            Some(rec) => {
                proof {
                    assert(rec@.len() == gfields.len());
                    assert(rec@ == rec.values@.map_values(|v: crate::extract::FieldValue| v@));
                }
                records.push(rec);
                proof {
                    assert(records_models(records@) =~= old_models.push(records@.last()@));
                    assert(records_models(records@) =~= spec_extract_all(
                        p,
                        gnames,
                        gfields,
                        views_of(lines@).take(i + 1),
                    ));
                }
            },
            None => {
                proof {
                    assert(records_models(records@) =~= spec_extract_all(
                        p,
                        gnames,
                        gfields,
                        views_of(lines@).take(i + 1),
                    ));
                }
            },
        }
        i += 1;
    }
    proof {
        assert(views_of(lines@).take(lines@.len() as int) =~= views_of(lines@));
    }
    let ghost ea = spec_extract_all(p, gnames, gfields, views_of(lines@));
    proof {
        assert(records_models(records@) == ea);
        assert(records@.len() == records_models(records@).len());
    }
    let r = proc.process(records);
    match r {
        Ok(_) => Ok(()),
        Err(e) => {
            proof {
                if proc.rows() != old(proc).rows() {
                    let k = choose|k: int|
                        0 <= k <= records@.len() && proc.rows() == old(proc).rows() + (
                        #[trigger] records_models(records@).take(k));
                    assert(ea.take(k) == records_models(records@).take(k));
                    assert(0 <= k <= ea.len() && proc.rows() == old(proc).rows() + ea.take(k));
                }
            }
            Err(e)
        },
    }
}

/// One full run over a batch of lines: compile the format, build the
/// processor (explicit fields and queries, or the default report), insert
/// one record per matching line, and execute the configured queries,
/// yielding one result per query.
pub fn run(
    format: &str,
    group_by: &str,
    having: u64,
    order_by: &str,
    limit: u64,
    fields: Option<Vec<String>>,
    queries: Option<Vec<String>>,
    lines: &Vec<String>,
) -> (r: Result<Vec<QueryResult>, TopError>)
    ensures
        r is Ok ==> !has_bad_dollar(spec_effective_template(format@)),
        r matches Ok(results) ==> match (fields, queries) {
            (Some(_), Some(q)) => results@.len() == q@.len(),
            _ => results@.len() == 1,
        },
        r matches Ok(results) ==> forall|k: int|
            0 <= k < results@.len() ==> crate::processor::result_rendered(#[trigger] results@[k]),
        r matches Ok(results) ==> exists|ss: Seq<SegModel>|
            {
                &&& #[trigger] segs_wf(ss)
                &&& spec_reconstruct(ss) == spec_effective_template(format@)
                &&& match (fields, queries) {
                    (Some(f), Some(q)) => (forall|k: int|
                        0 <= k < q@.len() ==> crate::processor::is_builtin_text(
                            #[trigger] views_of(q@)[k],
                        )) ==> forall|k: int|
                        0 <= k < results@.len() ==> crate::processor::builtin_result_ok(
                            views_of(q@)[k],
                            #[trigger] results@[k],
                            spec_extract_all(
                                spec_full_pattern(ss),
                                spec_names(ss),
                                views_of(f@),
                                views_of(lines@),
                            ),
                            views_of(f@),
                        ),
                    _ => (crate::processor::is_sql_ident(group_by@)
                        && crate::processor::is_sql_ident(order_by@) && results@.len() == 1)
                        ==> crate::processor::builtin_result_ok(
                        crate::queries::spec_default_query(group_by@, having, order_by@, limit),
                        results@[0],
                        spec_extract_all(
                            spec_full_pattern(ss),
                            spec_names(ss),
                            seq![group_by@, "status_type"@, "bytes_sent"@],
                            views_of(lines@),
                        ),
                        seq![group_by@, "status_type"@, "bytes_sent"@],
                    ),
                }
            },
        r is Ok ==> match (fields, queries) {
            (Some(f), Some(_)) => crate::processor::all_fields_ok(views_of(f@)),
            _ => crate::processor::spec_field_ok(group_by@),
        },
        r matches Err(e) ==> (e is FormatError <==> has_bad_dollar(
            spec_effective_template(format@),
        )),
        r matches Err(e) ==> (e is FieldError ==> match (fields, queries) {
            (Some(f), Some(_)) => !crate::processor::all_fields_ok(views_of(f@)),
            _ => !crate::processor::spec_field_ok(group_by@),
        }),
{
    let cp = match format_to_pattern(format) {
        Ok(cp) => cp,
        Err(e) => {
            return Err(e);
        },
    };
    let ghost ss = choose|ss: Seq<SegModel>|
        {
            &&& #[trigger] segs_wf(ss)
            &&& spec_reconstruct(ss) == spec_effective_template(format@)
            &&& cp.wf()
            &&& cp.pattern@ == spec_full_pattern(ss)
            &&& views_of(cp.names@) == spec_names(ss)
        };
    proof {
        assert(segs_wf(ss) && spec_reconstruct(ss) == spec_effective_template(format@)
            && cp.pattern@ == spec_full_pattern(ss) && views_of(cp.names@) == spec_names(ss));
        let ds = seq![group_by@, "status_type"@, "bytes_sent"@];
        if crate::processor::spec_field_ok(group_by@) {
            assert forall|i: int|
                0 <= i < ds.len() implies crate::processor::spec_field_ok(#[trigger] ds[i]) by {
                if i == 0 {
                    assert(ds[0] == group_by@);
                } else if i == 1 {
                    assert(ds[1] == "status_type"@);
                } else {
                    assert(ds[2] == "bytes_sent"@);
                }
            }
            assert(crate::processor::all_fields_ok(ds));
        }
        assert(ds[0] == group_by@);
    }
    let ghost gfields = fields;
    let ghost gqueries = queries;
    let mut proc = match crate::processor::generate_processor(
        group_by,
        having,
        order_by,
        limit,
        fields,
        queries,
    ) {
        Ok(p) => p,
        Err(e) => {
            return Err(e);
        },
    };
    match parse_input(lines, &cp, &mut proc) {
        Ok(_) => {},
        Err(e) => {
            return Err(e);
        },
    }
    proof {
        assert(views_of(proc.queries@).len() == proc.queries@.len());
        assert(match (fields, queries) {
            (Some(_), Some(q)) => views_of(q@).len() == q@.len(),
            _ => true,
        });
    }
    let ghost pre = proc;
    let ghost ea = spec_extract_all(
        spec_full_pattern(ss),
        spec_names(ss),
        views_of(proc.fields@),
        views_of(lines@),
    );
    proof {
        assert(pre.rows() =~= ea);
        assert(crate::processor::log_cols(pre.conn) == views_of(pre.fields@));
    }
    let r = proc.report();
    proof {
        if let Ok(results) = &r {
            match (gfields, gqueries) {
                (Some(f), Some(q)) => {
                    assert(views_of(pre.queries@) == views_of(q@));
                    assert(views_of(pre.fields@) == views_of(f@));
                    if forall|k: int|
                        0 <= k < q@.len() ==> crate::processor::is_builtin_text(
                            #[trigger] views_of(q@)[k],
                        ) {
                        assert forall|kk: int|
                            0 <= kk < pre.queries@.len() implies crate::processor::is_builtin_text(
                            #[trigger] views_of(pre.queries@)[kk],
                        ) by {
                            assert(views_of(pre.queries@)[kk] == views_of(q@)[kk]);
                        }
                        assert(forall|k: int|
                            0 <= k < results@.len() ==> crate::processor::builtin_result_ok(
                                views_of(pre.queries@)[k],
                                #[trigger] results@[k],
                                pre.rows(),
                                crate::processor::log_cols(pre.conn),
                            ));
                    }
                },
                _ => {
                    if crate::processor::is_sql_ident(group_by@) && crate::processor::is_sql_ident(
                        order_by@,
                    ) && results@.len() == 1 {
                        let dq = crate::queries::spec_default_query(
                            group_by@,
                            having,
                            order_by@,
                            limit,
                        );
                        assert(crate::processor::is_builtin_text(dq));
                        assert forall|kk: int|
                            0 <= kk < pre.queries@.len() implies crate::processor::is_builtin_text(
                            #[trigger] views_of(pre.queries@)[kk],
                        ) by {
                            assert(views_of(pre.queries@)[kk] == dq);
                        }
                        assert(crate::processor::builtin_result_ok(
                            dq,
                            results@[0],
                            pre.rows(),
                            crate::processor::log_cols(pre.conn),
                        ));
                    }
                },
            }
        }
    }
    r
}

} // verus!
