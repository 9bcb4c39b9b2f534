use vstd::prelude::*;
use crate::profile::{LanguageProfile, matches_at, block_enabled};
use crate::span::{Span, SpanKind};
use crate::scanner::{Mode, scan_from, scan_spec, code_span, mk_span, line_kind, rank, state_ok};

verus! {

/// `ss` is a run of non-empty spans, each starting where the previous one
/// ended, that goes from `a` to `b`.
pub open spec fn covers(ss: Seq<Span>, a: int, b: int) -> bool
    decreases ss.len(),
{
    if ss.len() == 0 {
        a == b
    } else {
        &&& ss[0].start == a
        &&& ss[0].start < ss[0].end
        &&& covers(ss.drop_first(), ss[0].end as int, b)
    }
}

/// The text of `t` under the spans `ss`, one after the other.
pub open spec fn spans_text(t: Seq<char>, ss: Seq<Span>) -> Seq<char>
    decreases ss.len(),
{
    if ss.len() == 0 {
        seq![]
    } else {
        t.subrange(ss[0].start as int, ss[0].end as int) + spans_text(t, ss.drop_first())
    }
}

/// The marker that opens a line comment of kind `doc` or not.
pub open spec fn line_marker_of(p: &LanguageProfile, doc: bool) -> Seq<char> {
    if doc {
        p.doc_marker@
    } else {
        p.line_marker@
    }
}

/// A line or documentation comment opens with its marker and ends at the
/// first newline after that marker, or at the end of `t`.
pub open spec fn ends_at_newline(t: Seq<char>, p: &LanguageProfile, s: Span) -> bool {
    (s.kind == SpanKind::LineComment || s.kind == SpanKind::DocComment) ==> {
        let mk = line_marker_of(p, s.kind == SpanKind::DocComment);
        &&& matches_at(t, s.start as int, mk)
        &&& s.start + mk.len() <= s.end <= t.len()
        &&& (s.end == t.len() || t[s.end as int] == '\n')
        &&& forall|j: int| s.start + mk.len() <= j < s.end ==> t[j] != '\n'
    }
}

/// A comment span is a documentation comment exactly when the documentation
/// marker stands at its start.
pub open spec fn doc_classified(t: Seq<char>, p: &LanguageProfile, s: Span) -> bool {
    s.kind != SpanKind::Code ==> (s.kind == SpanKind::DocComment <==> matches_at(
        t,
        s.start as int,
        p.doc_marker@,
    ))
}

pub open spec fn mode_start(m: Mode) -> int {
    match m {
        Mode::Code { start } => start,
        Mode::InLineComment { start, doc } => start,
        Mode::InBlockComment { start, depth } => start,
        Mode::InString { start, quote, escaped } => start,
    }
}

/// What holds of the comment under construction in mode `m` at cursor `i`.
pub open spec fn mode_inv(t: Seq<char>, p: &LanguageProfile, i: int, m: Mode) -> bool {
    &&& state_ok(m, i)
    &&& match m {
        Mode::InLineComment { start, doc } => {
            let mk = line_marker_of(p, doc);
            &&& matches_at(t, start, mk)
            &&& start + mk.len() <= i
            &&& forall|j: int| start + mk.len() <= j < i ==> t[j] != '\n'
            &&& (doc <==> matches_at(t, start, p.doc_marker@))
        },
        Mode::InBlockComment { start, depth } => !matches_at(t, start, p.doc_marker@),
        _ => true,
    }
}

proof fn lemma_covers_prepend(x: Span, ss: Seq<Span>, b: int)
    requires
        x.start < x.end,
        covers(ss, x.end as int, b),
    ensures
        covers(seq![x] + ss, x.start as int, b),
{
    assert((seq![x] + ss).drop_first() =~= ss);
}

proof fn lemma_code_prepend(a: int, i: int, ss: Seq<Span>, b: int)
    requires
        0 <= a <= i <= usize::MAX,
        covers(ss, i, b),
    ensures
        covers(code_span(a, i) + ss, a, b),
{
    if a < i {
        lemma_covers_prepend(mk_span(a, i, SpanKind::Code), ss, b);
    } else {
        assert(code_span(a, i) + ss =~= ss);
    }
}

/// Every span emitted from cursor `i` in mode `m` is well placed.
proof fn lemma_scan_from(t: Seq<char>, p: &LanguageProfile, i: int, m: Mode)
    requires
        t.len() <= usize::MAX,
        0 <= i <= t.len(),
        mode_inv(t, p, i, m),
    ensures
        covers(scan_from(t, p, i, m).0, mode_start(m), t.len() as int),
        forall|k: int|
            0 <= k < scan_from(t, p, i, m).0.len() ==> {
                &&& ends_at_newline(t, p, #[trigger] scan_from(t, p, i, m).0[k])
                &&& doc_classified(t, p, scan_from(t, p, i, m).0[k])
            },
    decreases t.len() - i, rank(m),
{
    let n = t.len() as int;
    let r = scan_from(t, p, i, m);
    if i >= n {
        match m {
            Mode::Code { start } => {
                lemma_code_prepend(start, n, seq![], n);
                assert(code_span(start, n) + seq![] =~= code_span(start, n));
            },
            Mode::InLineComment { start, doc } => {
                lemma_covers_prepend(mk_span(start, n, line_kind(doc)), seq![], n);
                assert(seq![mk_span(start, n, line_kind(doc))] + seq![] =~= r.0);
            },
            Mode::InBlockComment { start, depth } => {
                lemma_covers_prepend(mk_span(start, n, SpanKind::BlockComment), seq![], n);
                assert(seq![mk_span(start, n, SpanKind::BlockComment)] + seq![] =~= r.0);
            },
            Mode::InString { start, quote, escaped } => {
                lemma_code_prepend(start, n, seq![], n);
                assert(code_span(start, n) + seq![] =~= code_span(start, n));
            },
        }
    } else {
        match m {
            Mode::Code { start } => {
                if t[i] == '"' {
                    lemma_scan_from(t, p, i + 1, Mode::InString { start, quote: i, escaped: false });
                } else if matches_at(t, i, p.doc_marker@) {
                    let m2 = Mode::InLineComment { start: i, doc: true };
                    let i2 = i + p.doc_marker@.len();
                    lemma_scan_from(t, p, i2, m2);
                    let q = scan_from(t, p, i2, m2).0;
                    lemma_code_prepend(start, i, q, n);
                    assert forall|k: int| 0 <= k < r.0.len() implies {
                        &&& ends_at_newline(t, p, #[trigger] r.0[k])
                        &&& doc_classified(t, p, r.0[k])
                    } by {
                        if k >= code_span(start, i).len() {
                            assert(r.0[k] == q[k - code_span(start, i).len()]);
                        }
                    }
                } else if matches_at(t, i, p.line_marker@) {
                    let m2 = Mode::InLineComment { start: i, doc: false };
                    let i2 = i + p.line_marker@.len();
                    lemma_scan_from(t, p, i2, m2);
                    let q = scan_from(t, p, i2, m2).0;
                    lemma_code_prepend(start, i, q, n);
                    assert forall|k: int| 0 <= k < r.0.len() implies {
                        &&& ends_at_newline(t, p, #[trigger] r.0[k])
                        &&& doc_classified(t, p, r.0[k])
                    } by {
                        if k >= code_span(start, i).len() {
                            assert(r.0[k] == q[k - code_span(start, i).len()]);
                        }
                    }
                } else if block_enabled(p) && matches_at(t, i, p.block_open@) {
                    let m2 = Mode::InBlockComment { start: i, depth: 1 };
                    let i2 = i + p.block_open@.len();
                    lemma_scan_from(t, p, i2, m2);
                    let q = scan_from(t, p, i2, m2).0;
                    lemma_code_prepend(start, i, q, n);
                    assert forall|k: int| 0 <= k < r.0.len() implies {
                        &&& ends_at_newline(t, p, #[trigger] r.0[k])
                        &&& doc_classified(t, p, r.0[k])
                    } by {
                        if k >= code_span(start, i).len() {
                            assert(r.0[k] == q[k - code_span(start, i).len()]);
                        }
                    }
                } else {
                    lemma_scan_from(t, p, i + 1, m);
                }
            },
            Mode::InLineComment { start, doc } => {
                if t[i] == '\n' {
                    let m2 = Mode::Code { start: i };
                    lemma_scan_from(t, p, i, m2);
                    let q = scan_from(t, p, i, m2).0;
                    let x = mk_span(start, i, line_kind(doc));
                    lemma_covers_prepend(x, q, n);
                    assert forall|k: int| 0 <= k < r.0.len() implies {
                        &&& ends_at_newline(t, p, #[trigger] r.0[k])
                        &&& doc_classified(t, p, r.0[k])
                    } by {
                        if k >= 1 {
                            assert(r.0[k] == q[k - 1]);
                        }
                    }
                } else {
                    lemma_scan_from(t, p, i + 1, m);
                }
            },
            Mode::InBlockComment { start, depth } => {
                if matches_at(t, i, p.block_close@) {
                    let e = i + p.block_close@.len();
                    if depth <= 1 {
                        let m2 = Mode::Code { start: e };
                        lemma_scan_from(t, p, e, m2);
                        let q = scan_from(t, p, e, m2).0;
                        let x = mk_span(start, e, SpanKind::BlockComment);
                        lemma_covers_prepend(x, q, n);
                        assert forall|k: int| 0 <= k < r.0.len() implies {
                            &&& ends_at_newline(t, p, #[trigger] r.0[k])
                            &&& doc_classified(t, p, r.0[k])
                        } by {
                            if k >= 1 {
                                assert(r.0[k] == q[k - 1]);
                            }
                        }
                    } else {
                        lemma_scan_from(t, p, e, Mode::InBlockComment { start, depth: (depth - 1) as nat });
                    }
                } else if p.nesting && matches_at(t, i, p.block_open@) {
                    lemma_scan_from(t, p, i + p.block_open@.len(), Mode::InBlockComment { start, depth: depth + 1 });
                } else {
                    lemma_scan_from(t, p, i + 1, m);
                }
            },
            Mode::InString { start, quote, escaped } => {
                if escaped {
                    lemma_scan_from(t, p, i + 1, Mode::InString { start, quote, escaped: false });
                } else if t[i] == '\\' {
                    lemma_scan_from(t, p, i + 1, Mode::InString { start, quote, escaped: true });
                } else if t[i] == '"' {
                    lemma_scan_from(t, p, i + 1, Mode::Code { start });
                } else {
                    lemma_scan_from(t, p, i + 1, m);
                }
            },
        }
    }
}

proof fn lemma_covers_text(t: Seq<char>, ss: Seq<Span>, a: int, b: int)
    requires
        0 <= a,
        b <= t.len(),
        covers(ss, a, b),
    ensures
        a <= b,
        spans_text(t, ss) == t.subrange(a, b),
    decreases ss.len(),
{
    if ss.len() == 0 {
        assert(t.subrange(a, b) =~= seq![]);
    } else {
        let e = ss[0].end as int;
        lemma_covers_text(t, ss.drop_first(), e, b);
        assert(t.subrange(a, e) + t.subrange(e, b) =~= t.subrange(a, b));
    }
}

/// The spans of a scan are non-empty, contiguous, start at 0 and end at the
/// end of the input, so their texts put together give back the input.
pub proof fn lemma_scan_reconstructs_input(t: Seq<char>, p: &LanguageProfile)
    requires
        t.len() <= usize::MAX,
    ensures
        covers(scan_spec(t, p).0, 0, t.len() as int),
        spans_text(t, scan_spec(t, p).0) == t,
{
    lemma_scan_from(t, p, 0, Mode::Code { start: 0 });
    lemma_covers_text(t, scan_spec(t, p).0, 0, t.len() as int);
    assert(t.subrange(0, t.len() as int) =~= t);
}

/// A line or documentation comment of a scan ends exactly at the first
/// newline after its marker, or at the end of the input.
pub proof fn lemma_line_comment_ends_at_newline(t: Seq<char>, p: &LanguageProfile)
    requires
        t.len() <= usize::MAX,
    ensures
        forall|k: int|
            0 <= k < scan_spec(t, p).0.len() ==> ends_at_newline(t, p, #[trigger] scan_spec(t, p).0[k]),
{
    lemma_scan_from(t, p, 0, Mode::Code { start: 0 });
}

/// A comment that opens with the documentation marker is a documentation
/// comment, never a plain line comment (nor a block comment); and only such a
/// comment is one.
pub proof fn lemma_doc_marker_is_doc_comment(t: Seq<char>, p: &LanguageProfile)
    requires
        t.len() <= usize::MAX,
    ensures
        forall|k: int|
            0 <= k < scan_spec(t, p).0.len() ==> doc_classified(t, p, #[trigger] scan_spec(t, p).0[k]),
{
    lemma_scan_from(t, p, 0, Mode::Code { start: 0 });
}

} // verus!
