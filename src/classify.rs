use vstd::prelude::*;

verus! {

broadcast use vstd::string::axiom_spec_iter;

/// The characters with the Unicode `White_Space` property, which is what
/// `char::is_whitespace` and `str::trim` go by.
pub open spec fn is_white_space(c: char) -> bool {
    ('\u{9}' <= c && c <= '\u{d}') || c == ' ' || c == '\u{85}' || c == '\u{a0}' || c
        == '\u{1680}' || ('\u{2000}' <= c && c <= '\u{200a}') || c == '\u{2028}' || c
        == '\u{2029}' || c == '\u{202f}' || c == '\u{205f}' || c == '\u{3000}'
}

/// Executable test for white space, agreeing with `is_white_space`.
pub fn is_white_space_char(c: char) -> (r: bool)
    ensures
        r == is_white_space(c),
{
    ('\u{9}' <= c && c <= '\u{d}') || c == ' ' || c == '\u{85}' || c == '\u{a0}' || c
        == '\u{1680}' || ('\u{2000}' <= c && c <= '\u{200a}') || c == '\u{2028}' || c
        == '\u{2029}' || c == '\u{202f}' || c == '\u{205f}' || c == '\u{3000}'
}

/// `s` with its leading white space removed.
pub open spec fn trim_start(s: Seq<char>) -> Seq<char>
    decreases s.len(),
{
    if s.len() > 0 && is_white_space(s[0]) {
        trim_start(s.drop_first())
    } else {
        s
    }
}

/// `s` with its trailing white space removed.
pub open spec fn trim_end(s: Seq<char>) -> Seq<char>
    decreases s.len(),
{
    if s.len() > 0 && is_white_space(s.last()) {
        trim_end(s.drop_last())
    } else {
        s
    }
}

/// `s` with white space removed at both ends, as `str::trim` does.
pub open spec fn trim(s: Seq<char>) -> Seq<char> {
    trim_end(trim_start(s))
}

/// The three buckets a line of source text falls into.
#[derive(Clone, Copy, Debug, PartialEq, Eq, Structural)]
pub enum LineKind {
    Blank,
    Comment,
    Code,
}

/// How a line is classified: blank when nothing is left after trimming,
/// a comment when what is left starts with `/` or `*`, code otherwise.
pub open spec fn line_kind(s: Seq<char>) -> LineKind {
    let t = trim(s);
    if t.len() == 0 {
        LineKind::Blank
    } else if t[0] == '/' || t[0] == '*' {
        LineKind::Comment
    } else {
        LineKind::Code
    }
}

/// Trimming the end keeps a first character that is not white space.
proof fn lemma_trim_end_keeps_head(t: Seq<char>)
    requires
        t.len() > 0,
        !is_white_space(t[0]),
    ensures
        trim_end(t).len() > 0,
        trim_end(t)[0] == t[0],
    decreases t.len(),
{
    if is_white_space(t.last()) {
        assert(t.len() > 1);
        lemma_trim_end_keeps_head(t.drop_last());
    }
}

/// Trimming the end of an empty sequence leaves it empty.
proof fn lemma_trim_end_empty(t: Seq<char>)
    requires
        t.len() == 0,
    ensures
        trim_end(t).len() == 0,
{
}

/// The classification of a line depends only on the first character that is
/// not white space, and is `Blank` when there is none.
proof fn lemma_kind_by_trim_start(s: Seq<char>)
    ensures
        trim_start(s).len() == 0 ==> line_kind(s) == LineKind::Blank,
        trim_start(s).len() > 0 ==> !is_white_space(trim_start(s)[0]) && (line_kind(s) == (
        if trim_start(s)[0] == '/' || trim_start(s)[0] == '*' {
            LineKind::Comment
        } else {
            LineKind::Code
        })),
    decreases s.len(),
{
    if s.len() > 0 && is_white_space(s[0]) {
        lemma_kind_by_trim_start(s.drop_first());
    }
    let t = trim_start(s);
    if t.len() == 0 {
        lemma_trim_end_empty(t);
    } else {
        lemma_trim_start_head(s);
        lemma_trim_end_keeps_head(t);
    }
}

/// What `trim_start` leaves never starts with white space.
proof fn lemma_trim_start_head(s: Seq<char>)
    ensures
        trim_start(s).len() > 0 ==> !is_white_space(trim_start(s)[0]),
    decreases s.len(),
{
    if s.len() > 0 && is_white_space(s[0]) {
        lemma_trim_start_head(s.drop_first());
    }
}

/// Classifies one line of text as blank, comment or code.
pub fn classify_line(line: &str) -> (k: LineKind)
    ensures
        k == line_kind(line@),
{
    proof {
        lemma_kind_by_trim_start(line@);
        assert(line@.skip(0) =~= line@);
    }
    let mut found: Option<char> = None;
    for c in it: line.chars()
        invariant
            it.seq() == line@,
            found is None ==> trim_start(line@) == trim_start(line@.skip(it.index() as int)),
            found is Some ==> trim_start(line@).len() > 0 && trim_start(line@)[0] == found->0,
    {
        if found.is_none() {
            proof {
                let rest = line@.skip(it.index() as int);
                assert(rest[0] == c);
                assert(rest.drop_first() =~= line@.skip(it.index() + 1));
            }
            if !is_white_space_char(c) {
                found = Some(c);
            }
        }
    }
    match found {
        None => {
            assert(line@.skip(line@.len() as int) =~= Seq::<char>::empty());
            LineKind::Blank
        },
        Some(c) => {
            if c == '/' || c == '*' {
                LineKind::Comment
            } else {
                LineKind::Code
            }
        },
    }
}

/// A line made of white space alone is blank, never code.
pub proof fn lemma_white_space_line_is_blank(s: Seq<char>)
    requires
        forall|i: int| 0 <= i < s.len() ==> is_white_space(#[trigger] s[i]),
    ensures
        line_kind(s) == LineKind::Blank,
    decreases s.len(),
{
    lemma_kind_by_trim_start(s);
    if s.len() > 0 {
        let r = s.drop_first();
        assert forall|i: int| 0 <= i < r.len() implies is_white_space(#[trigger] r[i]) by {
            assert(r[i] == s[i + 1]);
        }
        lemma_white_space_line_is_blank(r);
        lemma_kind_by_trim_start(r);
    }
}

/// A line whose first character other than white space is `*` counts as a
/// comment, whatever follows (a pointer dereference included): the rule looks
/// at that one character and knows no comment syntax.
pub proof fn lemma_star_line_is_comment(s: Seq<char>, k: int)
    requires
        0 <= k < s.len(),
        forall|i: int| 0 <= i < k ==> is_white_space(#[trigger] s[i]),
        s[k] == '*',
    ensures
        line_kind(s) == LineKind::Comment,
    decreases k,
{
    lemma_kind_by_trim_start(s);
    if k > 0 {
        let r = s.drop_first();
        assert forall|i: int| 0 <= i < k - 1 implies is_white_space(#[trigger] r[i]) by {
            assert(r[i] == s[i + 1]);
        }
        assert(is_white_space(s[0]));
        lemma_star_line_is_comment(r, k - 1);
        lemma_kind_by_trim_start(r);
    }
}

/// How many of `lines` fall into bucket `k`.
pub open spec fn count_kind(lines: Seq<Seq<char>>, k: LineKind) -> nat
    decreases lines.len(),
{
    if lines.len() == 0 {
        0
    } else {
        count_kind(lines.drop_last(), k) + if line_kind(lines.last()) == k {
            1nat
        } else {
            0nat
        }
    }
}

/// Every line falls into exactly one bucket, so the buckets add up to the
/// number of lines.
pub proof fn lemma_buckets_partition_lines(lines: Seq<Seq<char>>)
    ensures
        lines.len() == count_kind(lines, LineKind::Blank) + count_kind(lines, LineKind::Comment)
            + count_kind(lines, LineKind::Code),
    decreases lines.len(),
{
    if lines.len() > 0 {
        lemma_buckets_partition_lines(lines.drop_last());
    }
}

} // verus!
