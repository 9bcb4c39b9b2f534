use vstd::prelude::*;

verus! {

/// The comment delimiters of one language. An empty marker is absent: a
/// profile with an empty `doc_marker` has no documentation comments, and block
/// comments exist only where both `block_open` and `block_close` are non-empty.
#[derive(Clone, Debug)]
pub struct LanguageProfile {
    pub line_marker: Vec<char>,
    pub doc_marker: Vec<char>,
    pub block_open: Vec<char>,
    pub block_close: Vec<char>,
    pub nesting: bool,
}

/// Whether the non-empty marker `m` occurs in `t` at position `i`.
pub open spec fn matches_at(t: Seq<char>, i: int, m: Seq<char>) -> bool {
    &&& m.len() > 0
    &&& 0 <= i
    &&& i + m.len() <= t.len()
    &&& t.subrange(i, i + m.len()) == m
}

pub open spec fn block_enabled(p: &LanguageProfile) -> bool {
    p.block_open@.len() > 0 && p.block_close@.len() > 0
}

/// Tests whether `m` is non-empty and occurs in `text` at position `i`.
pub fn marker_at(text: &[char], i: usize, m: &Vec<char>) -> (r: bool)
    ensures
        r == matches_at(text@, i as int, m@),
{
    let n = text.len();
    let k = m.len();
    if k == 0 || i > n || n - i < k {
        return false;
    }
    let mut j: usize = 0;
    while j < k
        invariant
            0 <= j <= k,
            k == m@.len(),
            n == text@.len(),
            i + k <= n,
            forall|q: int| 0 <= q < j ==> text@[i + q] == m@[q],
        decreases k - j,
    {
        if text[i + j] != m[j] {
            assert(text@.subrange(i as int, i + k)[j as int] != m@[j as int]);
            return false;
        }
        j = j + 1;
    }
    assert(text@.subrange(i as int, i + k) =~= m@);
    true
}

impl LanguageProfile {
    pub fn new(
        line_marker: Vec<char>,
        doc_marker: Vec<char>,
        block_open: Vec<char>,
        block_close: Vec<char>,
        nesting: bool,
    ) -> (r: LanguageProfile)
        ensures
            r.line_marker@ == line_marker@,
            r.doc_marker@ == doc_marker@,
            r.block_open@ == block_open@,
            r.block_close@ == block_close@,
            r.nesting == nesting,
    {
        LanguageProfile { line_marker, doc_marker, block_open, block_close, nesting }
    }

    /// Rust: `//`, `///`, and nesting `/* */`.
    pub fn rust() -> (r: LanguageProfile)
        ensures
            r.line_marker@ == seq!['/', '/'],
            r.doc_marker@ == seq!['/', '/', '/'],
            r.block_open@ == seq!['/', '*'],
            r.block_close@ == seq!['*', '/'],
            r.nesting,
    {
        LanguageProfile {
            line_marker: vec!['/', '/'],
            doc_marker: vec!['/', '/', '/'],
            block_open: vec!['/', '*'],
            block_close: vec!['*', '/'],
            nesting: true,
        }
    }
}

} // verus!
