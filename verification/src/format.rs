//! The format resolver: maps a preset name or a raw template string to an
//! ordered list of segments, each a literal run or a variable reference.
//!
//! A variable reference is written `$name`, where the name is a nonempty run
//! of ASCII letters, digits and underscores.  A `$` not followed by such a
//! character makes the template malformed.

use vstd::prelude::*;

use crate::TopError;
use crate::strutil::str_eq;

verus! {

/// The model of one template segment.
pub enum SegModel {
    Lit(Seq<char>),
    Var(Seq<char>),
}

/// One template segment: a literal text run or a variable reference.
pub enum Segment {
    Literal(String),
    Variable(String),
}

impl View for Segment {
    type V = SegModel;

    open spec fn view(&self) -> SegModel {
        match self {
            Segment::Literal(s) => SegModel::Lit(s@),
            Segment::Variable(s) => SegModel::Var(s@),
        }
    }
}

/// An ordered sequence of segments.  Concatenating the segments' texts in
/// order reconstructs the template they were parsed from.
pub struct FormatTemplate {
    pub segments: Vec<Segment>,
}

impl View for FormatTemplate {
    type V = Seq<SegModel>;

    open spec fn view(&self) -> Seq<SegModel> {
        self.segments@.map_values(|g: Segment| g@)
    }
}

/// Whether `c` may stand in a variable name.
pub open spec fn is_var_char(c: char) -> bool {
    let u = c as u32;
    (48 <= u < 58) || (65 <= u < 91) || (97 <= u < 123) || u == 95
}

/// Decides `is_var_char`.
pub fn var_char(c: char) -> (r: bool)
    ensures
        r == is_var_char(c),
{
    let u = c as u32;
    (48 <= u && u < 58) || (65 <= u && u < 91) || (97 <= u && u < 123) || u == 95
}

/// The text a segment stands for in the template.
pub open spec fn seg_text(g: SegModel) -> Seq<char> {
    match g {
        SegModel::Lit(l) => l,
        SegModel::Var(v) => seq!['$'] + v,
    }
}

/// One segment is well formed: a literal is nonempty and free of `$`, a
/// variable name is nonempty and made of variable characters.
pub open spec fn seg_wf(g: SegModel) -> bool {
    match g {
        SegModel::Lit(l) => l.len() > 0 && (forall|j: int| 0 <= j < l.len() ==> l[j] != '$'),
        SegModel::Var(v) => v.len() > 0 && (forall|j: int| 0 <= j < v.len() ==> is_var_char(v[j])),
    }
}

/// A segment list is well formed: every segment is, no two literals are
/// adjacent, and a literal that follows a variable starts with a character
/// that could not have extended the variable's name.  Under these rules one
/// template text has one segmentation.
pub open spec fn segs_wf(ss: Seq<SegModel>) -> bool {
    &&& forall|i: int| 0 <= i < ss.len() ==> seg_wf(#[trigger] ss[i])
    &&& forall|i: int|
        0 < i < ss.len() ==> match (ss[i - 1], #[trigger] ss[i]) {
            (SegModel::Lit(_), SegModel::Lit(_)) => false,
            (SegModel::Var(_), SegModel::Lit(l)) => l.len() > 0 && !is_var_char(l[0]),
            _ => true,
        }
}

/// The template text the segments stand for.
pub open spec fn spec_reconstruct(ss: Seq<SegModel>) -> Seq<char>
    decreases ss.len(),
{
    if ss.len() == 0 {
        Seq::empty()
    } else {
        spec_reconstruct(ss.drop_last()) + seg_text(ss.last())
    }
}

/// Position `i` of `s` holds a `$` that no variable name follows.
pub open spec fn bad_at(s: Seq<char>, i: int) -> bool {
    s[i] == '$' && (i + 1 == s.len() || !is_var_char(s[i + 1]))
}

/// The template holds a `$` that no variable name follows, so it cannot be
/// split into segments.
pub open spec fn has_bad_dollar(s: Seq<char>) -> bool {
    exists|i: int| 0 <= i < s.len() && bad_at(s, i)
}

/// Appending a variable segment extends the reconstruction to `end` and
/// clears every position of the variable token of a bad `$`.
proof fn lemma_push_var_step(t: Seq<char>, old_segs: Seq<SegModel>, name: Seq<char>, pos: int, end: int)
    requires
        0 <= pos < end <= t.len(),
        segs_wf(old_segs),
        spec_reconstruct(old_segs) == t.take(pos),
        t[pos] == '$',
        name == t.subrange(pos + 1, end),
        name.len() > 0,
        forall|j: int| pos + 1 <= j < end ==> is_var_char(#[trigger] t[j]),
    ensures
        segs_wf(old_segs.push(SegModel::Var(name))),
        spec_reconstruct(old_segs.push(SegModel::Var(name))) == t.take(end),
        forall|i: int| pos <= i < end ==> !bad_at(t, i),
{
    let g = SegModel::Var(name);
    let new_segs = old_segs.push(g);
    assert(new_segs.drop_last() =~= old_segs);
    assert(seg_wf(g));
    assert(segs_wf(new_segs));
    assert(seg_text(g) =~= t.subrange(pos, end));
    assert(t.take(end) =~= t.take(pos) + t.subrange(pos, end));
    assert(!bad_at(t, pos)) by {
        assert(is_var_char(t[pos + 1]));
    }
    assert forall|i: int| pos <= i < end implies !bad_at(t, i) by {
        if pos < i {
            assert(is_var_char(t[i]));
            assert(t[i] != '$');
        }
    }
}

/// Appending a literal segment extends the reconstruction to `end`; a
/// literal holds no `$`, so none of its positions is a bad one.
proof fn lemma_push_lit_step(t: Seq<char>, old_segs: Seq<SegModel>, lit: Seq<char>, pos: int, end: int)
    requires
        0 <= pos < end <= t.len(),
        segs_wf(old_segs),
        spec_reconstruct(old_segs) == t.take(pos),
        lit == t.subrange(pos, end),
        forall|j: int| pos <= j < end ==> #[trigger] t[j] != '$',
        old_segs.len() > 0 && old_segs.last() is Var ==> !is_var_char(t[pos]),
        old_segs.len() > 0 && old_segs.last() is Lit ==> t[pos] == '$',
    ensures
        segs_wf(old_segs.push(SegModel::Lit(lit))),
        spec_reconstruct(old_segs.push(SegModel::Lit(lit))) == t.take(end),
        forall|i: int| pos <= i < end ==> !bad_at(t, i),
{
    let g = SegModel::Lit(lit);
    let new_segs = old_segs.push(g);
    assert(new_segs.drop_last() =~= old_segs);
    assert(seg_wf(g));
    assert(lit[0] == t[pos]);
    if old_segs.len() > 0 {
        match old_segs.last() {
            SegModel::Lit(_) => {
                assert(t[pos] == '$');
                assert(t[pos] != '$');
            },
            SegModel::Var(_) => {
                assert(!is_var_char(t[pos]));
            },
        }
    }
    assert(segs_wf(new_segs));
    assert(seg_text(g) =~= t.subrange(pos, end));
    assert(t.take(end) =~= t.take(pos) + t.subrange(pos, end));
}

/// Splits a raw template into segments.
///
/// On success the segments are well formed and reconstruct the input
/// exactly; the input is rejected if and only if it holds a `$` that no
/// variable name follows.
#[verifier::rlimit(100)]
#[verifier::spinoff_prover]
pub fn parse_template(t: &str) -> (r: Result<FormatTemplate, TopError>)
    ensures
        match r {
            Ok(tpl) => segs_wf(tpl@) && spec_reconstruct(tpl@) == t@ && !has_bad_dollar(t@),
            Err(e) => e is FormatError && has_bad_dollar(t@),
        },
{
    let n = t.unicode_len();
    let mut segs: Vec<Segment> = Vec::new();
    let mut pos: usize = 0;
    while pos < n
        invariant
            pos <= n,
            n == t@.len(),
            segs_wf(segs@.map_values(|g: Segment| g@)),
            spec_reconstruct(segs@.map_values(|g: Segment| g@)) == t@.take(pos as int),
            forall|i: int| 0 <= i < pos ==> !bad_at(t@, i),
            segs@.len() > 0 && (segs@.map_values(|g: Segment| g@).last() is Var) ==> (pos == n
                || !is_var_char(t@[pos as int])),
            segs@.len() > 0 && (segs@.map_values(|g: Segment| g@).last() is Lit) ==> (pos == n
                || t@[pos as int] == '$'),
        decreases n - pos,
    {
        let ghost old_segs = segs@.map_values(|g: Segment| g@);
        let c = t.get_char(pos);
        if c == '$' {
            let start = pos + 1;
            let mut end = start;
            while end < n && var_char(t.get_char(end))
                invariant
                    start <= end <= n,
                    n == t@.len(),
                    forall|j: int| start <= j < end ==> is_var_char(t@[j]),
                decreases n - end,
            {
                end += 1;
            }
            if end == start {
                proof {
                    assert(bad_at(t@, pos as int));
                }
                return Err(TopError::FormatError(String::from_str(
                    "unterminated variable token in format template",
                )));
            }
            let name = t.substring_char(start, end);
            segs.push(Segment::Variable(String::from_str(name)));
            proof {
                lemma_push_var_step(t@, old_segs, name@, pos as int, end as int);
                assert(segs@.map_values(|g: Segment| g@) =~= old_segs.push(SegModel::Var(name@)));
            }
            pos = end;
        } else {
            let start = pos;
            let mut end = pos;
            while end < n && t.get_char(end) != '$'
                invariant
                    start <= end <= n,
                    n == t@.len(),
                    start < n,
                    t@[start as int] != '$',
                    forall|j: int| start <= j < end ==> t@[j] != '$',
                decreases n - end,
            {
                end += 1;
            }
            let lit = t.substring_char(start, end);
            segs.push(Segment::Literal(String::from_str(lit)));
            proof {
                assert(end > start) by {
                    if end == start {
                        assert(t@[start as int] != '$');
                    }
                }
                lemma_push_lit_step(t@, old_segs, lit@, pos as int, end as int);
                assert(segs@.map_values(|g: Segment| g@) =~= old_segs.push(SegModel::Lit(lit@)));
            }
            pos = end;
        }
    }
    proof {
        assert(t@.take(n as int) =~= t@);
        assert forall|i: int| 0 <= i < t@.len() implies !bad_at(t@, i) by {}
    }
    Ok(FormatTemplate { segments: segs })
}

/// Reconstruction can be read off the front as well: the first segment's
/// text, then the rest.
proof fn lemma_reconstruct_front(ss: Seq<SegModel>)
    requires
        ss.len() > 0,
    ensures
        spec_reconstruct(ss) == seg_text(ss[0]) + spec_reconstruct(ss.drop_first()),
    decreases ss.len(),
{
    if ss.len() == 1 {
        assert(ss.drop_last() =~= Seq::<SegModel>::empty());
        assert(ss.drop_first() =~= Seq::<SegModel>::empty());
        assert(ss.last() == ss[0]);
        assert(spec_reconstruct(ss) =~= seg_text(ss[0]) + spec_reconstruct(ss.drop_first()));
    } else {
        lemma_reconstruct_front(ss.drop_last());
        assert(ss.drop_last().drop_first() =~= ss.drop_first().drop_last());
        assert(ss.drop_first().last() == ss.last());
        assert(ss.drop_last()[0] == ss[0]);
        assert(spec_reconstruct(ss) =~= seg_text(ss[0]) + spec_reconstruct(ss.drop_first()));
    }
}

/// Dropping the first segment keeps a segment list well formed.
proof fn lemma_segs_wf_drop_first(ss: Seq<SegModel>)
    requires
        segs_wf(ss),
        ss.len() > 0,
    ensures
        segs_wf(ss.drop_first()),
{
    let d = ss.drop_first();
    assert forall|i: int| 0 <= i < d.len() implies seg_wf(#[trigger] d[i]) by {
        assert(d[i] == ss[i + 1]);
    }
    assert forall|i: int|
        0 < i < d.len() implies match (d[i - 1], #[trigger] d[i]) {
            (SegModel::Lit(_), SegModel::Lit(_)) => false,
            (SegModel::Var(_), SegModel::Lit(l)) => l.len() > 0 && !is_var_char(l[0]),
            _ => true,
        } by {
        assert(d[i - 1] == ss[i]);
        assert(d[i] == ss[i + 1]);
    }
}

/// The first character a well-formed segment list's text starts with:
/// `$` for a variable, the literal's own first character otherwise.
proof fn lemma_first_char(ss: Seq<SegModel>)
    requires
        segs_wf(ss),
        ss.len() > 0,
    ensures
        spec_reconstruct(ss).len() > 0,
        ss[0] is Var ==> spec_reconstruct(ss)[0] == '$',
        ss[0] matches SegModel::Lit(l) ==> spec_reconstruct(ss)[0] == l[0] && l[0] != '$',
{
    lemma_reconstruct_front(ss);
    assert(seg_wf(ss[0]));
    match ss[0] {
        SegModel::Lit(l) => {
            assert(seg_text(ss[0])[0] == l[0]);
        },
        SegModel::Var(v) => {
            assert(seg_text(ss[0])[0] == '$');
        },
    }
}

/// Two well-formed segment lists reconstructing the same text have first
/// segments of the same text length: were one shorter, its continuation
/// would start with a character the longer one's first segment cannot
/// hold at that position.
proof fn lemma_first_seg_len(a: Seq<SegModel>, b: Seq<SegModel>)
    requires
        segs_wf(a),
        segs_wf(b),
        a.len() > 0,
        b.len() > 0,
        spec_reconstruct(a) == spec_reconstruct(b),
    ensures
        seg_text(a[0]).len() >= seg_text(b[0]).len(),
{
    let t = spec_reconstruct(a);
    let x = seg_text(a[0]);
    let y = seg_text(b[0]);
    if x.len() >= y.len() {
        return ;
    }
    lemma_reconstruct_front(a);
    lemma_reconstruct_front(b);
    let ra = a.drop_first();
    // Position |x| of t lies inside y, so t is longer than |x|: ra is
    // nonempty and t[|x|] is the first character of its text.
    assert(t.len() >= y.len());
    assert(t[x.len() as int] == y[x.len() as int]);
    if ra.len() == 0 {
        assert(t.len() == x.len());
        assert(false);
    }
    lemma_segs_wf_drop_first(a);
    lemma_first_char(ra);
    assert(t[x.len() as int] == spec_reconstruct(ra)[0]);
    assert(ra[0] == a[1]);
    match (a[0], b[0]) {
        (SegModel::Lit(la), SegModel::Lit(lb)) => {
            // After a literal only a variable may follow, so t[|x|] is `$`;
            // but it also reads lb[|la|], and a literal holds no `$`.
            assert(seg_wf(b[0]));
            assert(y[x.len() as int] == lb[la.len() as int]);
            assert(lb[la.len() as int] != '$');
            match a[1] {
                SegModel::Lit(_) => {
                    assert(false);
                },
                SegModel::Var(_) => {
                    assert(spec_reconstruct(ra)[0] == '$');
                    assert(false);
                },
            }
        },
        (SegModel::Var(va), SegModel::Var(vb)) => {
            // After a variable the next text starts with `$` or a
            // non-variable character; but t[|x|] also reads a character of
            // vb's name, which is a variable character and not `$`.
            assert(seg_wf(b[0]));
            assert(y[x.len() as int] == vb[x.len() - 1]);
            assert(is_var_char(vb[x.len() - 1]));
            match a[1] {
                SegModel::Lit(l) => {
                    assert(spec_reconstruct(ra)[0] == l[0] && !is_var_char(l[0]));
                    assert(false);
                },
                SegModel::Var(_) => {
                    assert(spec_reconstruct(ra)[0] == '$');
                    assert(!is_var_char('$'));
                    assert(false);
                },
            }
        },
        (SegModel::Lit(la), SegModel::Var(vb)) => {
            assert(t[0] == la[0] && la[0] != '$');
            assert(t[0] == y[0] && y[0] == '$');
            assert(false);
        },
        (SegModel::Var(va), SegModel::Lit(lb)) => {
            assert(t[0] == '$');
            assert(t[0] == y[0] && y[0] == lb[0] && lb[0] != '$');
            assert(false);
        },
    }
}

/// Under the well-formedness rules a template text has one segmentation:
/// any two well-formed segment lists that reconstruct the same text are
/// equal.
#[verifier::rlimit(100)]
pub proof fn lemma_segmentation_unique(a: Seq<SegModel>, b: Seq<SegModel>)
    requires
        segs_wf(a),
        segs_wf(b),
        spec_reconstruct(a) == spec_reconstruct(b),
    ensures
        a == b,
    decreases a.len(),
{
    let t = spec_reconstruct(a);
    if a.len() == 0 {
        if b.len() > 0 {
            lemma_first_char(b);
            assert(false);
        }
        assert(a =~= b);
    } else if b.len() == 0 {
        lemma_first_char(a);
        assert(false);
    } else {
        let x = seg_text(a[0]);
        let y = seg_text(b[0]);
        lemma_first_seg_len(a, b);
        lemma_first_seg_len(b, a);
        assert(x.len() == y.len());
        lemma_reconstruct_front(a);
        lemma_reconstruct_front(b);
        assert(x =~= y) by {
            assert forall|i: int| 0 <= i < x.len() implies x[i] == y[i] by {
                assert(t[i] == x[i]);
                assert(t[i] == y[i]);
            }
        }
        assert(a[0] == b[0]) by {
            assert(seg_wf(a[0]));
            match (a[0], b[0]) {
                (SegModel::Lit(la), SegModel::Lit(lb)) => {
                    assert(la =~= lb);
                },
                (SegModel::Var(va), SegModel::Var(vb)) => {
                    assert(va =~= vb) by {
                        assert forall|i: int| 0 <= i < va.len() implies va[i] == vb[i] by {
                            assert(x[i + 1] == va[i]);
                            assert(y[i + 1] == vb[i]);
                        }
                    }
                },
                (SegModel::Lit(la), SegModel::Var(_)) => {
                    assert(x[0] == la[0] && la[0] != '$');
                    assert(y[0] == '$');
                },
                (SegModel::Var(_), SegModel::Lit(lb)) => {
                    assert(x[0] == '$');
                    assert(y[0] == lb[0] && lb[0] != '$');
                },
            }
        }
        assert(spec_reconstruct(a.drop_first()) =~= spec_reconstruct(b.drop_first())) by {
            let ra = spec_reconstruct(a.drop_first());
            let rb = spec_reconstruct(b.drop_first());
            assert(ra.len() == rb.len());
            assert forall|i: int| 0 <= i < ra.len() implies ra[i] == rb[i] by {
                assert(t[x.len() + i] == ra[i]);
                assert(t[y.len() + i] == rb[i]);
            }
        }
        lemma_segs_wf_drop_first(a);
        lemma_segs_wf_drop_first(b);
        lemma_segmentation_unique(a.drop_first(), b.drop_first());
        assert(a =~= b) by {
            assert forall|i: int| 0 <= i < a.len() implies a[i] == b[i] by {
                if i > 0 {
                    assert(a.drop_first()[i - 1] == a[i]);
                    assert(b.drop_first()[i - 1] == b[i]);
                }
            }
        }
    }
}

/// The template text a format identifier resolves to: the preset's template
/// for a known preset name, the identifier itself otherwise.
pub open spec fn spec_effective_template(f: Seq<char>) -> Seq<char> {
    if f == "combined"@ {
        "$remote_addr - $remote_user [$time_local] \"$request\" $status $body_bytes_sent \"$http_referer\" \"$http_user_agent\""@
    } else if f == "common"@ {
        "$remote_addr - $remote_user [$time_local] \"$request\" $status $body_bytes_sent"@
    } else {
        f
    }
}

/// Resolves a format identifier: substitutes a preset's template when the
/// identifier names one, then splits the template into segments.
pub fn resolve(format: &str) -> (r: Result<FormatTemplate, TopError>)
    ensures
        match r {
            Ok(tpl) => segs_wf(tpl@) && spec_reconstruct(tpl@) == spec_effective_template(format@)
                && !has_bad_dollar(spec_effective_template(format@)),
            Err(e) => e is FormatError && has_bad_dollar(spec_effective_template(format@)),
        },
{
    if str_eq(format, "combined") {
        parse_template(
            "$remote_addr - $remote_user [$time_local] \"$request\" $status $body_bytes_sent \"$http_referer\" \"$http_user_agent\"",
        )
    } else if str_eq(format, "common") {
        parse_template("$remote_addr - $remote_user [$time_local] \"$request\" $status $body_bytes_sent")
    } else {
        parse_template(format)
    }
}

} // verus!
