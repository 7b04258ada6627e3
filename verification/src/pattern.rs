//! The pattern compiler: turns a resolved template into one line-matching
//! pattern with a named capture group for the first occurrence of each
//! variable.  Literal text is escaped character by character so that it
//! matches verbatim, whatever it holds.
//!
//! The pattern text is built and specified here; compiling and matching it
//! are the pattern engine's work, reached through the trusted items at the
//! bottom of this file.

use vstd::prelude::*;

use crate::TopError;
use crate::format::{FormatTemplate, SegModel};
use crate::registry::{lookup, spec_matcher};
use crate::strutil::{contains_string, views_of};

verus! {

/// Whether `c` has a special meaning to the pattern engine and must be
/// escaped inside literal text.
pub open spec fn is_meta(c: char) -> bool {
    c == '\\' || c == '.' || c == '+' || c == '*' || c == '?' || c == '(' || c == ')' || c == '|'
        || c == '[' || c == ']' || c == '{' || c == '}' || c == '^' || c == '$'
}

/// Decides `is_meta`.
pub fn meta_char(c: char) -> (r: bool)
    ensures
        r == is_meta(c),
{
    c == '\\' || c == '.' || c == '+' || c == '*' || c == '?' || c == '(' || c == ')' || c == '|'
        || c == '[' || c == ']' || c == '{' || c == '}' || c == '^' || c == '$'
}

/// The literal text with a backslash before every special character, so the
/// pattern engine matches it verbatim.
pub open spec fn spec_escape(s: Seq<char>) -> Seq<char>
    decreases s.len(),
{
    if s.len() == 0 {
        Seq::empty()
    } else {
        spec_escape(s.drop_last()) + (if is_meta(s.last()) {
            seq!['\\', s.last()]
        } else {
            seq![s.last()]
        })
    }
}

/// Escapes every special character of `s` with a backslash.
pub fn escape_literal(s: &str) -> (r: Vec<char>)
    ensures
        r@ == spec_escape(s@),
{
    let n = s.unicode_len();
    let mut out: Vec<char> = Vec::new();
    let mut i: usize = 0;
    while i < n
        invariant
            i <= n,
            n == s@.len(),
            out@ == spec_escape(s@.take(i as int)),
        decreases n - i,
    {
        let c = s.get_char(i);
        if meta_char(c) {
            out.push('\\');
        }
        out.push(c);
        proof {
            assert(s@.take(i + 1).drop_last() =~= s@.take(i as int));
            assert(s@.take(i + 1).last() == s@[i as int]);
            assert(out@ =~= spec_escape(s@.take(i + 1)));
        }
        i += 1;
    }
    proof {
        assert(s@.take(n as int) =~= s@);
    }
    out
}

/// The capture-group names the template defines, in order of first
/// occurrence: one per variable, a repeated variable collapsed to its first
/// occurrence.
pub open spec fn spec_names(ss: Seq<SegModel>) -> Seq<Seq<char>>
    decreases ss.len(),
{
    if ss.len() == 0 {
        Seq::empty()
    } else {
        let pre = spec_names(ss.drop_last());
        match ss.last() {
            SegModel::Lit(_) => pre,
            SegModel::Var(v) => if pre.contains(v) {
                pre
            } else {
                pre.push(v)
            },
        }
    }
}

/// The body of the pattern the template compiles to: escaped literals, a
/// named capture for the first occurrence of each variable, and a plain
/// group for every later occurrence (the engine requires group names to be
/// unique).
pub open spec fn spec_pattern_body(ss: Seq<SegModel>) -> Seq<char>
    decreases ss.len(),
{
    if ss.len() == 0 {
        Seq::empty()
    } else {
        spec_pattern_body(ss.drop_last()) + match ss.last() {
            SegModel::Lit(l) => spec_escape(l),
            SegModel::Var(v) => if spec_names(ss.drop_last()).contains(v) {
                "(?:"@ + spec_matcher(v) + ")"@
            } else {
                "(?P<"@ + v + ">"@ + spec_matcher(v) + ")"@
            },
        }
    }
}

/// The full pattern: the body anchored to match a whole line.
pub open spec fn spec_full_pattern(ss: Seq<SegModel>) -> Seq<char> {
    "^"@ + spec_pattern_body(ss) + "$"@
}

/// A compiled line-matching pattern: the pattern text, the capture-group
/// names it defines in order, and the engine's compiled form of it.
pub struct CompiledPattern {
    pub pattern: String,
    pub names: Vec<String>,
    pub re: regex::Regex,
}

impl CompiledPattern {
    /// The compiled form was made from exactly the pattern text.
    pub open spec fn wf(&self) -> bool {
        regex_pattern(self.re) == self.pattern@ && regex_ok(self.pattern@)
    }

    /// Applies the pattern to one line.  `None` when the line does not
    /// match; otherwise one entry per capture-group name, `None` where the
    /// group did not take part in the match.
    pub fn captures(&self, line: &str) -> (r: Option<Vec<Option<String>>>)
        requires
            self.wf(),
        ensures
            r is Some <==> spec_line_matches(self.pattern@, line@),
            match r {
                Some(caps) => caps@.len() == self.names@.len() && forall|i: int|
                    0 <= i < self.names@.len() ==> opt_str_view(#[trigger] caps@[i])
                        == spec_group_capture(self.pattern@, line@, views_of(self.names@)[i]),
                None => true,
            },
    {
        regex_captures(&self.re, line, &self.names)
    }
}

/// Compiles a resolved template: escapes each literal, emits one named
/// capture per first variable occurrence, anchors the whole, and hands the
/// text to the pattern engine.  Fails with `PatternError` exactly when the
/// engine rejects the pattern text.
#[verifier::rlimit(60)]
pub fn compile(t: &FormatTemplate) -> (r: Result<CompiledPattern, TopError>)
    ensures
        match r {
            Ok(cp) => cp.wf() && cp.pattern@ == spec_full_pattern(t@) && views_of(cp.names@)
                == spec_names(t@) && regex_ok(spec_full_pattern(t@)),
            Err(e) => e is PatternError && !regex_ok(spec_full_pattern(t@)),
        },
{
    let mut pat = String::from_str("^");
    let mut names: Vec<String> = Vec::new();
    let mut i: usize = 0;
    while i < t.segments.len()
        invariant
            i <= t.segments.len(),
            pat@ == "^"@ + spec_pattern_body(t@.take(i as int)),
            views_of(names@) == spec_names(t@.take(i as int)),
        decreases t.segments.len() - i,
    {
        let ghost old_names = views_of(names@);
        let ghost old_pat = pat@;
        proof {
            assert(t@.take(i + 1).drop_last() =~= t@.take(i as int));
            assert(t@.take(i + 1).last() == t@[i as int]);
        }
        match &t.segments[i] {
            crate::format::Segment::Literal(l) => {
                let esc = escape_literal(l.as_str());
                let esc_s = crate::strutil::chars_to_string(&esc);
                pat.append(esc_s.as_str());
                proof {
                    assert(pat@ =~= "^"@ + spec_pattern_body(t@.take(i + 1)));
                }
            },
            crate::format::Segment::Variable(v) => {
                let spec = lookup(v.as_str());
                if contains_string(&names, v.as_str()) {
                    pat.append("(?:");
                    pat.append(spec.matcher.as_str());
                    pat.append(")");
                    proof {
                        assert(pat@ =~= "^"@ + spec_pattern_body(t@.take(i + 1)));
                    }
                } else {
                    pat.append("(?P<");
                    pat.append(v.as_str());
                    pat.append(">");
                    pat.append(spec.matcher.as_str());
                    pat.append(")");
                    names.push(v.clone());
                    proof {
                        assert(views_of(names@) =~= old_names.push(v@));
                        assert(pat@ =~= "^"@ + spec_pattern_body(t@.take(i + 1)));
                    }
                }
            },
        }
        i += 1;
    }
    pat.append("$");
    proof {
        assert(t@.take(t@.len() as int) =~= t@);
        assert(pat@ =~= spec_full_pattern(t@));
    }
    match regex_new(pat.as_str()) {
        Ok(re) => Ok(CompiledPattern { pattern: pat, names, re }),
        Err(m) => Err(TopError::PatternError(m)),
    }
}

/// The view of an optional owned string.
pub open spec fn opt_str_view(o: Option<String>) -> Option<Seq<char>> {
    match o {
        Some(s) => Some(s@),
        None => None,
    }
}

#[verifier::external_type_specification]
#[verifier::external_body]
pub struct ExRegex(regex::Regex);

/// The pattern text a compiled `regex::Regex` was made from.
pub uninterp spec fn regex_pattern(re: regex::Regex) -> Seq<char>;

/// Whether the pattern engine accepts this pattern text; compilation is a
/// function of the text alone.
pub uninterp spec fn regex_ok(pattern: Seq<char>) -> bool;

/// Whether the compiled pattern matches the line; a function of pattern
/// text and line alone.
pub uninterp spec fn spec_line_matches(pattern: Seq<char>, line: Seq<char>) -> bool;

/// What the named capture group takes from the line on a match: `None`
/// where the group does not exist or did not take part, the matched text
/// otherwise; a function of pattern text, line and group name alone.
pub uninterp spec fn spec_group_capture(
    pattern: Seq<char>,
    line: Seq<char>,
    name: Seq<char>,
) -> Option<Seq<char>>;

/// Relies on `regex::Regex::new`: compiling a pattern succeeds or fails
/// depending on the pattern text alone, and the compiled value matches per
/// that text.  The error case carries the engine's message.
#[verifier::external_body]
fn regex_new(pattern: &str) -> (r: Result<regex::Regex, String>)
    ensures
        r is Ok <==> regex_ok(pattern@),
        match r {
            Ok(re) => regex_pattern(re) == pattern@,
            Err(_) => true,
        },
{
    match regex::Regex::new(pattern) {
        Ok(re) => Ok(re),
        Err(e) => Err(format!("{}", e)),
    }
}

/// Relies on `regex::Regex::captures` and `regex::Captures::name`: whether
/// the line matches, and what each named group captured, depend on the
/// pattern and the line alone.
#[verifier::external_body]
fn regex_captures(re: &regex::Regex, line: &str, names: &Vec<String>) -> (r: Option<
    Vec<Option<String>>,
>)
    ensures
        r is Some <==> spec_line_matches(regex_pattern(*re), line@),
        match r {
            Some(caps) => caps@.len() == names@.len() && forall|i: int|
                0 <= i < names@.len() ==> opt_str_view(#[trigger] caps@[i]) == spec_group_capture(
                    regex_pattern(*re),
                    line@,
                    views_of(names@)[i],
                ),
            None => true,
        },
{
    match re.captures(line) {
        None => None,
        Some(c) => {
            let mut out: Vec<Option<String>> = Vec::new();
            for n in names {
                out.push(c.name(n).map(|m| m.as_str().to_string()));
            }
            Some(out)
        },
    }
}

} // verus!
