//! The built-in query catalog: the aggregation text each subcommand runs
//! against the relation, synthesized from the requested field names, plus
//! the default report query and the field introspection helper.

use vstd::prelude::*;

use crate::TopError;
use crate::format::FormatTemplate;
use crate::pattern::spec_names;
use crate::strutil::{contains_string, join_strings, spec_join, spec_u64_digits, u64_to_string, views_of};

verus! {

/// `AVG(field)` for one field.
pub open spec fn spec_avg_term(f: Seq<char>) -> Seq<char> {
    "AVG("@ + f + ")"@
}

/// `SUM(field)` for one field.
pub open spec fn spec_sum_term(f: Seq<char>) -> Seq<char> {
    "SUM("@ + f + ")"@
}

/// The one query of the avg subcommand: the arithmetic mean of every
/// requested field over all rows.
pub open spec fn spec_avg_query(fields: Seq<Seq<char>>) -> Seq<char> {
    "SELECT "@ + spec_join(fields.map_values(|f: Seq<char>| spec_avg_term(f)), ", "@)
        + " FROM log"@
}

/// The one query of the sum subcommand: the sum of every requested field
/// over all rows.
pub open spec fn spec_sum_query(fields: Seq<Seq<char>>) -> Seq<char> {
    "SELECT "@ + spec_join(fields.map_values(|f: Seq<char>| spec_sum_term(f)), ", "@)
        + " FROM log"@
}

/// The one query of the print subcommand: the duplicate-free projection of
/// the requested fields.
pub open spec fn spec_print_query(fields: Seq<Seq<char>>) -> Seq<char> {
    "SELECT "@ + spec_join(fields, ", "@) + " FROM log GROUP BY "@ + spec_join(fields, ", "@)
}

/// The per-field query of the top subcommand: the most frequent distinct
/// values of the field and their counts, limited.
pub open spec fn spec_top_query(f: Seq<char>, limit: u64) -> Seq<char> {
    "SELECT "@ + f + ", COUNT(1) AS count FROM log GROUP BY "@ + f
        + " ORDER BY count DESC LIMIT "@ + spec_u64_digits(limit)
}

/// The default report query: group by the chosen field, keep groups of at
/// least the having threshold, order them descending by the chosen column,
/// and limit the output.
pub open spec fn spec_default_query(
    group_by: Seq<char>,
    having: u64,
    order_by: Seq<char>,
    limit: u64,
) -> Seq<char> {
    "SELECT "@ + group_by
        + ", COUNT(1) AS count, AVG(bytes_sent) AS avg_bytes_sent FROM log GROUP BY "@ + group_by
        + " HAVING count >= "@ + spec_u64_digits(having) + " ORDER BY "@ + order_by
        + " DESC LIMIT "@ + spec_u64_digits(limit)
}

/// Builds the aggregate term list `OP(f1), OP(f2), ...` for avg or sum.
fn agg_terms(fields: &Vec<String>, avg: bool) -> (r: Vec<String>)
    ensures
        views_of(r@) == views_of(fields@).map_values(
            |f: Seq<char>|
                if avg {
                    spec_avg_term(f)
                } else {
                    spec_sum_term(f)
                },
        ),
{
    let mut out: Vec<String> = Vec::new();
    let mut i: usize = 0;
    while i < fields.len()
        invariant
            i <= fields.len(),
            out@.len() == i,
            forall|j: int|
                0 <= j < i ==> (#[trigger] out@[j])@ == (if avg {
                    spec_avg_term(views_of(fields@)[j])
                } else {
                    spec_sum_term(views_of(fields@)[j])
                }),
        decreases fields.len() - i,
    {
        let mut s = if avg {
            String::from_str("AVG(")
        } else {
            String::from_str("SUM(")
        };
        s.append(fields[i].as_str());
        s.append(")");
        out.push(s);
        i += 1;
    }
    proof {
        assert(views_of(out@) =~= views_of(fields@).map_values(
            |f: Seq<char>|
                if avg {
                    spec_avg_term(f)
                } else {
                    spec_sum_term(f)
                },
        ));
    }
    out
}

/// The avg subcommand's queries: one query taking the arithmetic mean of
/// each requested field over the whole relation.
pub fn avg_subcommand(fields: &Vec<String>) -> (r: Vec<String>)
    ensures
        views_of(r@) == seq![spec_avg_query(views_of(fields@))],
{
    let terms = agg_terms(fields, true);
    proof {
        assert(views_of(terms@) =~= views_of(fields@).map_values(
            |f: Seq<char>| spec_avg_term(f),
        ));
    }
    let selections = join_strings(&terms, ", ");
    let mut q = String::from_str("SELECT ");
    q.append(selections.as_str());
    q.append(" FROM log");
    let mut v: Vec<String> = Vec::new();
    v.push(q);
    proof {
        assert(views_of(v@) =~= seq![spec_avg_query(views_of(fields@))]);
    }
    v
}

/// The sum subcommand's queries: one query summing each requested field
/// over the whole relation.
pub fn sum_subcommand(fields: &Vec<String>) -> (r: Vec<String>)
    ensures
        views_of(r@) == seq![spec_sum_query(views_of(fields@))],
{
    let terms = agg_terms(fields, false);
    proof {
        assert(views_of(terms@) =~= views_of(fields@).map_values(
            |f: Seq<char>| spec_sum_term(f),
        ));
    }
    let selections = join_strings(&terms, ", ");
    let mut q = String::from_str("SELECT ");
    q.append(selections.as_str());
    q.append(" FROM log");
    let mut v: Vec<String> = Vec::new();
    v.push(q);
    proof {
        assert(views_of(v@) =~= seq![spec_sum_query(views_of(fields@))]);
    }
    v
}

/// The print subcommand's queries: one query projecting the requested
/// fields, duplicates collapsed by grouping on all of them.
pub fn print_subcommand(fields: &Vec<String>) -> (r: Vec<String>)
    ensures
        views_of(r@) == seq![spec_print_query(views_of(fields@))],
{
    let selections = join_strings(fields, ", ");
    let mut q = String::from_str("SELECT ");
    q.append(selections.as_str());
    q.append(" FROM log GROUP BY ");
    q.append(selections.as_str());
    let mut v: Vec<String> = Vec::new();
    v.push(q);
    proof {
        assert(views_of(v@) =~= seq![spec_print_query(views_of(fields@))]);
    }
    v
}

/// The query subcommand's queries: the caller's query text, verbatim.
pub fn query_subcommand(query: String) -> (r: Vec<String>)
    ensures
        views_of(r@) == seq![query@],
{
    let ghost q = query@;
    let mut v: Vec<String> = Vec::new();
    v.push(query);
    proof {
        assert(views_of(v@) =~= seq![q]);
    }
    v
}

/// The top subcommand's queries: for each requested field independently,
/// the most frequent distinct values with their counts, at most `limit`
/// rows each.
pub fn top_subcommand(fields: &Vec<String>, limit: u64) -> (r: Vec<String>)
    ensures
        views_of(r@) == views_of(fields@).map_values(|f: Seq<char>| spec_top_query(f, limit)),
{
    let mut out: Vec<String> = Vec::new();
    let mut i: usize = 0;
    while i < fields.len()
        invariant
            i <= fields.len(),
            out@.len() == i,
            forall|j: int|
                0 <= j < i ==> (#[trigger] out@[j])@ == spec_top_query(
                    views_of(fields@)[j],
                    limit,
                ),
        decreases fields.len() - i,
    {
        let mut q = String::from_str("SELECT ");
        q.append(fields[i].as_str());
        q.append(", COUNT(1) AS count FROM log GROUP BY ");
        q.append(fields[i].as_str());
        q.append(" ORDER BY count DESC LIMIT ");
        let l = u64_to_string(limit);
        q.append(l.as_str());
        out.push(q);
        i += 1;
    }
    proof {
        assert(views_of(out@) =~= views_of(fields@).map_values(
            |f: Seq<char>| spec_top_query(f, limit),
        ));
    }
    out
}

/// Builds the default report query from the run options.
pub fn default_query(group_by: &str, having: u64, order_by: &str, limit: u64) -> (r: String)
    ensures
        r@ == spec_default_query(group_by@, having, order_by@, limit),
{
    let mut q = String::from_str("SELECT ");
    q.append(group_by);
    q.append(", COUNT(1) AS count, AVG(bytes_sent) AS avg_bytes_sent FROM log GROUP BY ");
    q.append(group_by);
    q.append(" HAVING count >= ");
    let h = u64_to_string(having);
    q.append(h.as_str());
    q.append(" ORDER BY ");
    q.append(order_by);
    q.append(" DESC LIMIT ");
    let l = u64_to_string(limit);
    q.append(l.as_str());
    q
}

/// Lists the variables a resolved template makes available to query, in
/// order of first occurrence, comma-separated.
pub fn template_variables(t: &FormatTemplate) -> (r: String)
    ensures
        r@ == spec_join(spec_names(t@), ", "@),
{
    let mut names: Vec<String> = Vec::new();
    let mut i: usize = 0;
    while i < t.segments.len()
        invariant
            i <= t.segments.len(),
            views_of(names@) == spec_names(t@.take(i as int)),
        decreases t.segments.len() - i,
    {
        let ghost old_names = views_of(names@);
        proof {
            assert(t@.take(i + 1).drop_last() =~= t@.take(i as int));
            assert(t@.take(i + 1).last() == t@[i as int]);
        }
        match &t.segments[i] {
            crate::format::Segment::Literal(_) => {},
            crate::format::Segment::Variable(v) => {
                if !contains_string(&names, v.as_str()) {
                    names.push(v.clone());
                    proof {
                        assert(views_of(names@) =~= old_names.push(v@));
                    }
                }
            },
        }
        i += 1;
    }
    proof {
        assert(t@.take(t@.len() as int) =~= t@);
    }
    join_strings(&names, ", ")
}

} // verus!
