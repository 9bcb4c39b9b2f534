use comment_scan::profile::LanguageProfile;
use comment_scan::scanner::{chars_of, scan, scan_str, ScanOutput, Scanner};
use comment_scan::span::{Diagnostic, DiagnosticKind, Span, SpanKind};

fn chars(s: &str) -> Vec<char> {
    s.chars().collect()
}

fn triples(out: &ScanOutput) -> Vec<(usize, usize, SpanKind)> {
    out.spans.iter().map(|s| (s.start, s.end, s.kind)).collect()
}

fn rust_without_nesting() -> LanguageProfile {
    let mut p = LanguageProfile::rust();
    p.nesting = false;
    p
}

fn python() -> LanguageProfile {
    LanguageProfile::new(vec!['#'], vec![], vec![], vec![], false)
}

fn rebuilt(text: &[char], out: &ScanOutput) -> Vec<char> {
    let mut r = Vec::new();
    for s in &out.spans {
        r.extend_from_slice(&text[s.start..s.end]);
    }
    r
}

fn assert_contiguous(text: &[char], out: &ScanOutput) {
    let mut pos = 0;
    for s in &out.spans {
        assert_eq!(s.start, pos);
        assert!(s.start < s.end);
        pos = s.end;
    }
    assert_eq!(pos, text.len());
    assert_eq!(rebuilt(text, out), text.to_vec());
}

#[test]
fn line_comment_then_code() {
    let text = chars("// hi\ncode();");
    let out = scan(&text, &LanguageProfile::rust());
    assert_eq!(
        triples(&out),
        vec![(0, 5, SpanKind::LineComment), (5, 13, SpanKind::Code)]
    );
    assert!(out.diagnostics.is_empty());
}

#[test]
fn block_comment_without_nesting_ends_at_first_close() {
    let text = chars("/* a /* b */ c */");
    let out = scan(&text, &rust_without_nesting());
    assert_eq!(
        triples(&out),
        vec![(0, 12, SpanKind::BlockComment), (12, 17, SpanKind::Code)]
    );
    let tail: String = text[12..17].iter().collect();
    assert_eq!(tail, " c */");
    assert!(out.diagnostics.is_empty());
}

#[test]
fn block_comment_with_nesting_ends_at_matching_close() {
    let text = chars("/* a /* b */ c */ x");
    let out = scan(&text, &LanguageProfile::rust());
    assert_eq!(
        triples(&out),
        vec![(0, 17, SpanKind::BlockComment), (17, 19, SpanKind::Code)]
    );
    assert!(out.diagnostics.is_empty());
}

#[test]
fn comment_marker_inside_string_is_code() {
    let text = chars("\"// not a comment\"");
    let out = scan(&text, &LanguageProfile::rust());
    assert_eq!(triples(&out), vec![(0, 18, SpanKind::Code)]);
    assert!(out.diagnostics.is_empty());
}

#[test]
fn escaped_quote_does_not_close_string() {
    let text = chars("\"a\\\"b // c\" // d");
    let out = scan(&text, &LanguageProfile::rust());
    assert_eq!(
        triples(&out),
        vec![(0, 12, SpanKind::Code), (12, 16, SpanKind::LineComment)]
    );
    assert!(out.diagnostics.is_empty());
}

#[test]
fn empty_input_gives_no_spans() {
    let out = scan(&[], &LanguageProfile::rust());
    assert!(out.spans.is_empty());
    assert!(out.diagnostics.is_empty());
}

#[test]
fn doc_marker_gives_doc_comment() {
    let text = chars("/// doc\nx");
    let out = scan(&text, &LanguageProfile::rust());
    assert_eq!(
        triples(&out),
        vec![(0, 7, SpanKind::DocComment), (7, 9, SpanKind::Code)]
    );
}

#[test]
fn doc_marker_is_never_a_line_comment() {
    let text = chars("a /// b\n// c\n//// d");
    let out = scan(&text, &LanguageProfile::rust());
    assert_eq!(
        triples(&out),
        vec![
            (0, 2, SpanKind::Code),
            (2, 7, SpanKind::DocComment),
            (7, 8, SpanKind::Code),
            (8, 12, SpanKind::LineComment),
            (12, 13, SpanKind::Code),
            (13, 19, SpanKind::DocComment),
        ]
    );
}

#[test]
fn line_comment_ends_at_newline_or_end() {
    let text = chars("x // one\ny // two");
    let out = scan(&text, &LanguageProfile::rust());
    for s in &out.spans {
        if s.kind == SpanKind::LineComment {
            assert!(s.end == text.len() || text[s.end] == '\n');
            assert!(text[s.start..s.end].iter().all(|c| *c != '\n'));
        }
    }
    assert_eq!(
        triples(&out),
        vec![
            (0, 2, SpanKind::Code),
            (2, 8, SpanKind::LineComment),
            (8, 11, SpanKind::Code),
            (11, 17, SpanKind::LineComment),
        ]
    );
}

#[test]
fn unterminated_block_comment_is_reported() {
    let text = chars("a /* b");
    let out = scan(&text, &LanguageProfile::rust());
    assert_eq!(
        triples(&out),
        vec![(0, 2, SpanKind::Code), (2, 6, SpanKind::BlockComment)]
    );
    assert_eq!(
        out.diagnostics,
        vec![Diagnostic { position: 2, kind: DiagnosticKind::UnterminatedComment }]
    );
}

#[test]
fn unterminated_string_is_reported() {
    let text = chars("x = \"abc // d");
    let out = scan(&text, &LanguageProfile::rust());
    assert_eq!(triples(&out), vec![(0, 13, SpanKind::Code)]);
    assert_eq!(
        out.diagnostics,
        vec![Diagnostic { position: 4, kind: DiagnosticKind::UnterminatedString }]
    );
}

#[test]
fn block_open_inside_block_close_pair_is_not_reopened() {
    let text = chars("/*/ x */y");
    let out = scan(&text, &LanguageProfile::rust());
    assert_eq!(
        triples(&out),
        vec![(0, 8, SpanKind::BlockComment), (8, 9, SpanKind::Code)]
    );
}

#[test]
fn profile_without_block_comments() {
    let text = chars("a # b\nc /* d */");
    let out = scan(&text, &python());
    assert_eq!(
        triples(&out),
        vec![
            (0, 2, SpanKind::Code),
            (2, 5, SpanKind::LineComment),
            (5, 15, SpanKind::Code),
        ]
    );
}

#[test]
fn spans_reconstruct_sample_source() {
    let src = "// header\n\n/*\n * block\n */\n\n/// doc\nstruct User {\n    name: String, // name\n}\n\nfn main() {\n    let s = \"/* not */ a comment\";\n    /* inline */ println!(\"{}\", s); // tail\n}\n// end";
    let text = chars(src);
    let out = scan(&text, &LanguageProfile::rust());
    assert_contiguous(&text, &out);
    assert!(out.diagnostics.is_empty());
    let kinds: Vec<SpanKind> = out.spans.iter().map(|s| s.kind).collect();
    assert_eq!(
        kinds,
        vec![
            SpanKind::LineComment,
            SpanKind::Code,
            SpanKind::BlockComment,
            SpanKind::Code,
            SpanKind::DocComment,
            SpanKind::Code,
            SpanKind::LineComment,
            SpanKind::Code,
            SpanKind::BlockComment,
            SpanKind::Code,
            SpanKind::LineComment,
            SpanKind::Code,
            SpanKind::LineComment,
        ]
    );
}

#[test]
fn spans_reconstruct_malformed_input() {
    for src in ["\"", "/*", "//", "a\"b\\", "/* /* */", "*/ x /", "\n\n//\n"] {
        let text = chars(src);
        let out = scan(&text, &LanguageProfile::rust());
        assert_contiguous(&text, &out);
    }
}

#[test]
fn scan_str_counts_characters() {
    let out = scan_str("é // x", &LanguageProfile::rust());
    assert_eq!(
        triples(&out),
        vec![(0, 2, SpanKind::Code), (2, 6, SpanKind::LineComment)]
    );
}

#[test]
fn chars_of_keeps_every_character() {
    assert_eq!(chars_of("aé\n"), vec!['a', 'é', '\n']);
    assert!(chars_of("").is_empty());
}

#[test]
fn rust_profile_markers() {
    let p = LanguageProfile::rust();
    assert_eq!(p.line_marker, vec!['/', '/']);
    assert_eq!(p.doc_marker, vec!['/', '/', '/']);
    assert_eq!(p.block_open, vec!['/', '*']);
    assert_eq!(p.block_close, vec!['*', '/']);
    assert!(p.nesting);
}

#[test]
fn scanner_hands_out_the_same_spans_one_by_one() {
    let text = chars("x /* a */ \"s\" // c\n/// d\n/* open");
    let whole = scan(&text, &LanguageProfile::rust());
    let mut sc = Scanner::new(text.clone(), LanguageProfile::rust());
    assert!(sc.diagnostics().is_empty());
    let mut got: Vec<Span> = Vec::new();
    while let Some(s) = sc.next_span() {
        got.push(s);
    }
    assert_eq!(got, whole.spans);
    assert_eq!(sc.diagnostics(), &whole.diagnostics);
    assert_eq!(
        sc.diagnostics(),
        &vec![Diagnostic { position: 25, kind: DiagnosticKind::UnterminatedComment }]
    );
    assert_eq!(sc.next_span(), None);
    assert_eq!(sc.next_span(), None);
}

#[test]
fn scanner_on_empty_input_is_finished_at_once() {
    let mut sc = Scanner::new(Vec::new(), LanguageProfile::rust());
    assert_eq!(sc.next_span(), None);
    assert!(sc.diagnostics().is_empty());
}
