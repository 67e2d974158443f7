//! Lines and letter case of a text, as the standard library has them.

use vstd::prelude::*;

verus! {

/// How many characters of `s` stand before its first line feed: `s.len()` if
/// it has none.
pub open spec fn line_end(s: Seq<char>) -> nat
    decreases s.len(),
{
    if s.len() == 0 || s[0] == '\n' {
        0
    } else {
        1 + line_end(s.drop_first())
    }
}

/// `s` without the carriage return that it ends in, if it ends in one.
pub open spec fn without_cr(s: Seq<char>) -> Seq<char> {
    if s.len() > 0 && s.last() == '\r' {
        s.drop_last()
    } else {
        s
    }
}

/// The lines of a text. A line ends at a line feed, or at a carriage return
/// followed by a line feed; neither belongs to the line. The last line needs
/// no ending, and a carriage return that no line feed follows stays in its
/// line. The empty text has no lines.
pub open spec fn lines_of(s: Seq<char>) -> Seq<Seq<char>>
    decreases s.len(),
{
    let end = line_end(s);
    if s.len() == 0 {
        Seq::empty()
    } else if end >= s.len() {
        seq![s]
    } else {
        seq![without_cr(s.take(end as int))] + lines_of(s.skip(end as int + 1))
    }
}

/// A line ends where the first line feed stands, and none stands before.
pub proof fn lemma_line_end(s: Seq<char>)
    ensures
        line_end(s) <= s.len(),
        line_end(s) < s.len() ==> s[line_end(s) as int] == '\n',
        forall|j: int| 0 <= j < line_end(s) ==> s[j] != '\n',
    decreases s.len(),
{
    if s.len() > 0 && s[0] != '\n' {
        lemma_line_end(s.drop_first());
        assert forall|j: int| 0 <= j < line_end(s) implies s[j] != '\n' by {
            if j > 0 {
                assert(s[j] == s.drop_first()[j - 1]);
            }
        }
    }
}

/// No line of a text holds a line feed.
pub proof fn lemma_lines_hold_no_line_feed(s: Seq<char>)
    ensures
        forall|i: int, j: int|
            0 <= i < lines_of(s).len() && 0 <= j < lines_of(s)[i].len() ==> lines_of(s)[i][j]
                != '\n',
    decreases s.len(),
{
    let end = line_end(s) as int;
    lemma_line_end(s);
    if s.len() > 0 && end < s.len() {
        let rest = lines_of(s.skip(end + 1));
        lemma_lines_hold_no_line_feed(s.skip(end + 1));
        let first = without_cr(s.take(end));
        assert forall|i: int, j: int|
            0 <= i < lines_of(s).len() && 0 <= j < lines_of(s)[i].len() implies lines_of(s)[i][j]
            != '\n' by {
            if i == 0 {
                assert(first[j] == s[j]);
            } else {
                assert(lines_of(s)[i] == rest[i - 1]);
            }
        }
    }
}

/// The lower-case form of a text under Unicode's rules.
pub uninterp spec fn lowercase(s: Seq<char>) -> Seq<char>;

/// `str::lines`, each line as a string of its own. The contract is what the
/// standard library documents of it: see `lines_of`.
#[verifier::external_body]
pub(crate) fn split_lines(text: &str) -> (lines: Vec<String>)
    ensures
        lines.deep_view() == lines_of(text@),
{
    text.lines().map(String::from).collect()
}

/// `str::to_lowercase`. The result depends on the text alone, and the
/// contract gives it its name.
#[verifier::external_body]
pub(crate) fn to_lowercase(text: &str) -> (lower: String)
    ensures
        lower@ == lowercase(text@),
{
    text.to_lowercase()
}

} // verus!
