use vstd::prelude::*;
use crate::profile::{LanguageProfile, matches_at, block_enabled, marker_at};
use vstd::string::*;
use crate::span::{Span, SpanKind, Diagnostic, DiagnosticKind};

verus! {

/// The scanner's mode at a cursor position, in mathematical terms.
/// `start` is where the span under construction began.
pub enum Mode {
    Code { start: int },
    InLineComment { start: int, doc: bool },
    InBlockComment { start: int, depth: nat },
    InString { start: int, quote: int, escaped: bool },
}

/// The executable scan state; its view is a `Mode`.
#[derive(Clone, Copy)]
pub enum ScanState {
    Code { start: usize },
    InLineComment { start: usize, doc: bool },
    InBlockComment { start: usize, depth: usize },
    InString { start: usize, quote: usize, escaped: bool },
}

impl View for ScanState {
    type V = Mode;

    open spec fn view(&self) -> Mode {
        match *self {
            ScanState::Code { start } => Mode::Code { start: start as int },
            ScanState::InLineComment { start, doc } => Mode::InLineComment {
                start: start as int,
                doc,
            },
            ScanState::InBlockComment { start, depth } => Mode::InBlockComment {
                start: start as int,
                depth: depth as nat,
            },
            ScanState::InString { start, quote, escaped } => Mode::InString {
                start: start as int,
                quote: quote as int,
                escaped,
            },
        }
    }
}

/// All spans and diagnostics of one scan.
pub struct ScanOutput {
    pub spans: Vec<Span>,
    pub diagnostics: Vec<Diagnostic>,
}

pub open spec fn mk_span(a: int, b: int, kind: SpanKind) -> Span {
    Span { start: a as usize, end: b as usize, kind }
}

pub open spec fn mk_diag(pos: int, kind: DiagnosticKind) -> Diagnostic {
    Diagnostic { position: pos as usize, kind }
}

/// A code span `[a, b)`, omitted when empty.
pub open spec fn code_span(a: int, b: int) -> Seq<Span> {
    if a < b {
        seq![mk_span(a, b, SpanKind::Code)]
    } else {
        seq![]
    }
}

pub open spec fn line_kind(doc: bool) -> SpanKind {
    if doc {
        SpanKind::DocComment
    } else {
        SpanKind::LineComment
    }
}

/// Orders the one step that does not advance the cursor (a line comment
/// closing at a newline, which then belongs to code).
pub open spec fn rank(m: Mode) -> int {
    if m is InLineComment {
        1
    } else {
        0
    }
}

/// What the scan emits when the input ends in mode `m`.
pub open spec fn finish(n: int, m: Mode) -> (Seq<Span>, Seq<Diagnostic>) {
    match m {
        Mode::Code { start } => (code_span(start, n), seq![]),
        Mode::InLineComment { start, doc } => (seq![mk_span(start, n, line_kind(doc))], seq![]),
        Mode::InBlockComment { start, depth } => (
            seq![mk_span(start, n, SpanKind::BlockComment)],
            seq![mk_diag(start, DiagnosticKind::UnterminatedComment)],
        ),
        Mode::InString { start, quote, escaped } => (
            code_span(start, n),
            seq![mk_diag(quote, DiagnosticKind::UnterminatedString)],
        ),
    }
}

/// Spans and diagnostics emitted from cursor `i` in mode `m` to the end of `t`.
///
/// In code, a `"` opens a string; otherwise the documentation marker, the line
/// marker and the block-open marker are tried in that order. A line comment
/// closes before the next newline; a block comment after its matching close
/// marker (counting depth when the profile nests); a string at the next
/// unescaped `"`.
pub open spec fn scan_from(t: Seq<char>, p: &LanguageProfile, i: int, m: Mode) -> (Seq<Span>, Seq<Diagnostic>)
    decreases t.len() - i, rank(m),
{
    if i < 0 || i >= t.len() {
        finish(t.len() as int, m)
    } else {
        match m {
            Mode::Code { start } => {
                if t[i] == '"' {
                    scan_from(t, p, i + 1, Mode::InString { start, quote: i, escaped: false })
                } else if matches_at(t, i, p.doc_marker@) {
                    let r = scan_from(t, p, i + p.doc_marker@.len(), Mode::InLineComment { start: i, doc: true });
                    (code_span(start, i) + r.0, r.1)
                } else if matches_at(t, i, p.line_marker@) {
                    let r = scan_from(t, p, i + p.line_marker@.len(), Mode::InLineComment { start: i, doc: false });
                    (code_span(start, i) + r.0, r.1)
                } else if block_enabled(p) && matches_at(t, i, p.block_open@) {
                    let r = scan_from(t, p, i + p.block_open@.len(), Mode::InBlockComment { start: i, depth: 1 });
                    (code_span(start, i) + r.0, r.1)
                } else {
                    scan_from(t, p, i + 1, m)
                }
            },
            Mode::InLineComment { start, doc } => {
                if t[i] == '\n' {
                    let r = scan_from(t, p, i, Mode::Code { start: i });
                    (seq![mk_span(start, i, line_kind(doc))] + r.0, r.1)
                } else {
                    scan_from(t, p, i + 1, m)
                }
            },
            Mode::InBlockComment { start, depth } => {
                if matches_at(t, i, p.block_close@) {
                    let e = i + p.block_close@.len();
                    if depth <= 1 {
                        let r = scan_from(t, p, e, Mode::Code { start: e });
                        (seq![mk_span(start, e, SpanKind::BlockComment)] + r.0, r.1)
                    } else {
                        scan_from(t, p, e, Mode::InBlockComment { start, depth: (depth - 1) as nat })
                    }
                } else if p.nesting && matches_at(t, i, p.block_open@) {
                    scan_from(t, p, i + p.block_open@.len(), Mode::InBlockComment { start, depth: depth + 1 })
                } else {
                    scan_from(t, p, i + 1, m)
                }
            },
            Mode::InString { start, quote, escaped } => {
                if escaped {
                    scan_from(t, p, i + 1, Mode::InString { start, quote, escaped: false })
                } else if t[i] == '\\' {
                    scan_from(t, p, i + 1, Mode::InString { start, quote, escaped: true })
                } else if t[i] == '"' {
                    scan_from(t, p, i + 1, Mode::Code { start })
                } else {
                    scan_from(t, p, i + 1, m)
                }
            },
        }
    }
}

/// The spans and diagnostics of a whole scan of `t`.
pub open spec fn scan_spec(t: Seq<char>, p: &LanguageProfile) -> (Seq<Span>, Seq<Diagnostic>) {
    scan_from(t, p, 0, Mode::Code { start: 0 })
}

/// The bounds a reachable state keeps relative to the cursor `i`.
pub open spec fn state_ok(m: Mode, i: int) -> bool {
    match m {
        Mode::Code { start } => 0 <= start <= i,
        Mode::InLineComment { start, doc } => 0 <= start < i,
        Mode::InBlockComment { start, depth } => 0 <= start < i && depth <= i,
        Mode::InString { start, quote, escaped } => 0 <= start <= quote < i,
    }
}

fn kind_of_line(doc: bool) -> (r: SpanKind)
    ensures
        r == line_kind(doc),
{
    if doc {
        SpanKind::DocComment
    } else {
        SpanKind::LineComment
    }
}

/// The sequence of the one value in `o`, or the empty sequence.
pub open spec fn opt_seq<T>(o: Option<T>) -> Seq<T> {
    match o {
        Some(x) => seq![x],
        None => seq![],
    }
}

fn code_piece(a: usize, b: usize) -> (r: Option<Span>)
    ensures
        opt_seq(r) == code_span(a as int, b as int),
{
    if a < b {
        Some(Span::new(a, b, SpanKind::Code))
    } else {
        None
    }
}

/// One move of the scanner at cursor `i` in state `st`: the next cursor, the
/// next state, and the span closed on the way, if any.
fn step(text: &[char], profile: &LanguageProfile, block_on: bool, i: usize, st: ScanState) -> (r: (
    usize,
    ScanState,
    Option<Span>,
))
    requires
        i < text@.len() <= usize::MAX,
        state_ok(st@, i as int),
        block_on == block_enabled(profile),
    ensures
        r.0 <= text@.len(),
        state_ok(r.1@, r.0 as int),
        r.0 > i || (r.0 == i && rank(r.1@) < rank(st@)),
        scan_from(text@, profile, i as int, st@).0 == opt_seq(r.2) + scan_from(
            text@,
            profile,
            r.0 as int,
            r.1@,
        ).0,
        scan_from(text@, profile, i as int, st@).1 == scan_from(text@, profile, r.0 as int, r.1@).1,
{
    match st {
        ScanState::Code { start } => {
            if text[i] == '"' {
                (i + 1, ScanState::InString { start, quote: i, escaped: false }, None)
            } else if marker_at(text, i, &profile.doc_marker) {
                (
                    i + profile.doc_marker.len(),
                    ScanState::InLineComment { start: i, doc: true },
                    code_piece(start, i),
                )
            } else if marker_at(text, i, &profile.line_marker) {
                (
                    i + profile.line_marker.len(),
                    ScanState::InLineComment { start: i, doc: false },
                    code_piece(start, i),
                )
            } else if block_on && marker_at(text, i, &profile.block_open) {
                (
                    i + profile.block_open.len(),
                    ScanState::InBlockComment { start: i, depth: 1 },
                    code_piece(start, i),
                )
            } else {
                (i + 1, st, None)
            }
        },
        ScanState::InLineComment { start, doc } => {
            if text[i] == '\n' {
                (i, ScanState::Code { start: i }, Some(Span::new(start, i, kind_of_line(doc))))
            } else {
                (i + 1, st, None)
            }
        },
        ScanState::InBlockComment { start, depth } => {
            if marker_at(text, i, &profile.block_close) {
                let e = i + profile.block_close.len();
                if depth <= 1 {
                    (e, ScanState::Code { start: e }, Some(Span::new(start, e, SpanKind::BlockComment)))
                } else {
                    (e, ScanState::InBlockComment { start, depth: depth - 1 }, None)
                }
            } else if profile.nesting && marker_at(text, i, &profile.block_open) {
                (i + profile.block_open.len(), ScanState::InBlockComment { start, depth: depth + 1 }, None)
            } else {
                (i + 1, st, None)
            }
        },
        ScanState::InString { start, quote, escaped } => {
            if escaped {
                (i + 1, ScanState::InString { start, quote, escaped: false }, None)
            } else if text[i] == '\\' {
                (i + 1, ScanState::InString { start, quote, escaped: true }, None)
            } else if text[i] == '"' {
                (i + 1, ScanState::Code { start }, None)
            } else {
                (i + 1, st, None)
            }
        },
    }
}

/// What the scanner emits when the input, of length `n`, ends in state `st`.
fn finish_step(n: usize, st: ScanState) -> (r: (Option<Span>, Option<Diagnostic>))
    requires
        state_ok(st@, n as int),
    ensures
        opt_seq(r.0) == finish(n as int, st@).0,
        opt_seq(r.1) == finish(n as int, st@).1,
{
    match st {
        ScanState::Code { start } => (code_piece(start, n), None),
        ScanState::InLineComment { start, doc } => (Some(Span::new(start, n, kind_of_line(doc))), None),
        ScanState::InBlockComment { start, depth } => (
            Some(Span::new(start, n, SpanKind::BlockComment)),
            Some(Diagnostic { position: start, kind: DiagnosticKind::UnterminatedComment }),
        ),
        ScanState::InString { start, quote, escaped } => (
            code_piece(start, n),
            Some(Diagnostic { position: quote, kind: DiagnosticKind::UnterminatedString }),
        ),
    }
}

fn push_opt<T>(v: &mut Vec<T>, o: Option<T>)
    ensures
        final(v)@ == old(v)@ + opt_seq(o),
{
    match o {
        Some(x) => {
            v.push(x);
            assert(final(v)@ =~= old(v)@ + opt_seq(o));
        },
        None => {
            assert(final(v)@ =~= old(v)@ + opt_seq(o));
        },
    }
}

/// Scans `text` in one forward pass and returns its spans, in order, with the
/// diagnostics of unterminated block comments and strings.
pub fn scan(text: &[char], profile: &LanguageProfile) -> (r: ScanOutput)
    ensures
        r.spans@ == scan_spec(text@, profile).0,
        r.diagnostics@ == scan_spec(text@, profile).1,
{
    let n = text.len();
    let mut spans: Vec<Span> = Vec::new();
    let mut diagnostics: Vec<Diagnostic> = Vec::new();
    let mut st = ScanState::Code { start: 0 };
    let mut i: usize = 0;
    let block_on = profile.block_open.len() > 0 && profile.block_close.len() > 0;
    while i < n
        invariant
            n == text@.len(),
            i <= n,
            state_ok(st@, i as int),
            block_on == block_enabled(profile),
            diagnostics@ == Seq::<Diagnostic>::empty(),
            scan_spec(text@, profile).0 == spans@ + scan_from(text@, profile, i as int, st@).0,
            scan_spec(text@, profile).1 == scan_from(text@, profile, i as int, st@).1,
        decreases n - i, rank(st@),
    {
        let (ni, nst, out) = step(text, profile, block_on, i, st);
        let ghost s0 = spans@;
        push_opt(&mut spans, out);
        assert(s0 + (opt_seq(out) + scan_from(text@, profile, ni as int, nst@).0) =~= spans@
            + scan_from(text@, profile, ni as int, nst@).0);
        i = ni;
        st = nst;
    }
    let (last, diagnostic) = finish_step(n, st);
    push_opt(&mut spans, last);
    push_opt(&mut diagnostics, diagnostic);
    assert(diagnostics@ =~= opt_seq(diagnostic));
    ScanOutput { spans, diagnostics }
}

/// A scan that hands out its spans one at a time, in order. Once it has
/// handed out the last one it stays finished.
pub struct Scanner {
    text: Vec<char>,
    profile: LanguageProfile,
    block_on: bool,
    pos: usize,
    state: ScanState,
    done: bool,
    diagnostics: Vec<Diagnostic>,
    emitted: Ghost<Seq<Span>>,
}

impl Scanner {
    pub closed spec fn text(&self) -> Seq<char> {
        self.text@
    }

    pub closed spec fn profile(&self) -> LanguageProfile {
        self.profile
    }

    /// The spans handed out so far.
    pub closed spec fn emitted(&self) -> Seq<Span> {
        self.emitted@
    }

    /// Whether the last span has been handed out.
    pub closed spec fn is_done(&self) -> bool {
        self.done
    }

    /// What has been handed out plus what the rest of the input gives is the
    /// whole scan.
    pub closed spec fn wf(&self) -> bool {
        let t = self.text@;
        let p = &self.profile;
        &&& self.pos <= t.len()
        &&& state_ok(self.state@, self.pos as int)
        &&& self.block_on == block_enabled(p)
        &&& if self.done {
            &&& self.emitted@ == scan_spec(t, p).0
            &&& self.diagnostics@ == scan_spec(t, p).1
        } else {
            &&& self.diagnostics@ == Seq::<Diagnostic>::empty()
            &&& scan_spec(t, p).0 == self.emitted@ + scan_from(t, p, self.pos as int, self.state@).0
            &&& scan_spec(t, p).1 == scan_from(t, p, self.pos as int, self.state@).1
        }
    }

    pub fn new(text: Vec<char>, profile: LanguageProfile) -> (r: Scanner)
        ensures
            r.wf(),
            !r.is_done(),
            r.text() == text@,
            r.profile() == profile,
            r.emitted() == Seq::<Span>::empty(),
    {
        let block_on = profile.block_open.len() > 0 && profile.block_close.len() > 0;
        let r = Scanner {
            text,
            profile,
            block_on,
            pos: 0,
            state: ScanState::Code { start: 0 },
            done: false,
            diagnostics: Vec::new(),
            emitted: Ghost(Seq::empty()),
        };
        assert(Seq::<Span>::empty() + scan_spec(r.text@, &r.profile).0 =~= scan_spec(r.text@, &r.profile).0);
        r
    }

    /// The next span of the scan, or `None` once all have been handed out.
    pub fn next_span(&mut self) -> (r: Option<Span>)
        requires
            old(self).wf(),
        ensures
            final(self).wf(),
            final(self).text() == old(self).text(),
            final(self).profile() == old(self).profile(),
            final(self).emitted() == old(self).emitted() + opt_seq(r),
            final(self).emitted() == scan_spec(final(self).text(), &final(self).profile()).0.take(
                final(self).emitted().len() as int,
            ),
            r is None ==> final(self).is_done(),
            old(self).is_done() ==> r is None,
            final(self).is_done() ==> final(self).emitted() == scan_spec(
                final(self).text(),
                &final(self).profile(),
            ).0,
    {
        let ghost full = scan_spec(self.text@, &self.profile).0;
        if self.done {
            assert(self.emitted@ + opt_seq(None::<Span>) =~= self.emitted@);
            assert(full.take(full.len() as int) =~= full);
            return None;
        }
        let ghost e0 = self.emitted@;
        while self.pos < self.text.len()
            invariant
                self.wf(),
                self.text@ == old(self).text@,
                self.profile == old(self).profile,
                old(self).emitted@ == e0,
                !old(self).done,
                !self.done,
                self.emitted@ == e0,
                full == scan_spec(self.text@, &self.profile).0,
            decreases self.text@.len() - self.pos, rank(self.state@),
        {
            let (ni, nst, out) = step(self.text.as_slice(), &self.profile, self.block_on, self.pos, self.state);
            let ghost rest = scan_from(self.text@, &self.profile, ni as int, nst@).0;
            self.pos = ni;
            self.state = nst;
            match out {
                Some(s) => {
                    self.emitted = Ghost(self.emitted@.push(s));
                    assert(e0 + (seq![s] + rest) =~= self.emitted@ + rest);
                    assert(self.emitted@ =~= e0 + opt_seq(out));
                    assert(full.take(self.emitted@.len() as int) =~= self.emitted@);
                    return Some(s);
                },
                None => {
                    assert(seq![] + rest =~= rest);
                },
            }
        }
        let n = self.text.len();
        let (last, diagnostic) = finish_step(n, self.state);
        self.done = true;
        push_opt(&mut self.diagnostics, diagnostic);
        assert(self.diagnostics@ =~= opt_seq(diagnostic));
        match last {
            Some(s) => {
                self.emitted = Ghost(self.emitted@.push(s));
                assert(self.emitted@ =~= e0 + opt_seq(last));
                assert(full.take(self.emitted@.len() as int) =~= self.emitted@);
                Some(s)
            },
            None => {
                assert(e0 + opt_seq(last) =~= e0);
                assert(full.take(e0.len() as int) =~= e0);
                None
            },
        }
    }

    /// The diagnostics of the scan; complete once it is done.
    pub fn diagnostics(&self) -> (r: &Vec<Diagnostic>)
        requires
            self.wf(),
        ensures
            self.is_done() ==> r@ == scan_spec(self.text(), &self.profile()).1,
            !self.is_done() ==> r@ == Seq::<Diagnostic>::empty(),
    {
        &self.diagnostics
    }
}

/// The characters of `s`, in order.
pub fn chars_of(s: &str) -> (r: Vec<char>)
    ensures
        r@ == s@,
{
    let mut out: Vec<char> = Vec::new();
    for c in it: s.chars()
        invariant
            out@ == it.seq().subrange(0, it.index() as int),
            it.seq() == s@,
    {
        out.push(c);
    }
    out
}

/// Scans the characters of `text`; positions count characters, not bytes.
pub fn scan_str(text: &str, profile: &LanguageProfile) -> (r: ScanOutput)
    ensures
        r.spans@ == scan_spec(text@, profile).0,
        r.diagnostics@ == scan_spec(text@, profile).1,
{
    let chars = chars_of(text);
    scan(chars.as_slice(), profile)
}

} // verus!
