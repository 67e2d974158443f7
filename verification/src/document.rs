//! What the document holds before the first file, and the page that each
//! file adds to it.

use crate::docx::{
    cell_add_line, cell_lines, cell_new, docx_add_auto_contents, docx_add_font_style,
    docx_add_heading, docx_add_page_heading, docx_add_style, docx_add_table, docx_blocks,
    docx_new, docx_styles, escaped, run_text, Block, Line, StyleDef,
};
use crate::error::Error;
use crate::path::{relative_to, strip_prefix};
use crate::text::{lines_of, split_lines};
use docx_rs::{Docx, StyleType, TableCell};
use vstd::prelude::*;

verus! {

/// The text of the title paragraph.
pub const TITLE: &'static str = "Source Code";

/// The id of the title's style.
pub const TITLE_STYLE: &'static str = "Heading1";

/// The name of the title's style.
pub const TITLE_STYLE_NAME: &'static str = "Heading 1";

/// The id of the style of the headings above the files.
pub const HEADING_STYLE: &'static str = "Heading2";

/// The name of the style of the headings above the files.
pub const HEADING_STYLE_NAME: &'static str = "Heading 2";

/// The alias under which the table of contents is shown.
pub const CONTENTS_ALIAS: &'static str = "Table of contents";

/// The font family of every line of a file.
pub const CODE_FONT: &'static str = "Courier New";

/// A character that `docx_rs` stores as it is.
pub open spec fn plain_char(c: char) -> bool {
    c != '&' && c != '<' && c != '>' && c != '"' && c != '\'' && c != '\n' && c != '\r'
}

/// A text that `docx_rs` stores as it is.
pub open spec fn plain(s: Seq<char>) -> bool {
    forall|i: int| 0 <= i < s.len() ==> plain_char(#[trigger] s[i])
}

/// The two styles that every document registers: the title's, by name only,
/// and the one of the headings above the files, with twice the configured
/// size, which is its size in half-points, and the configured font family.
pub open spec fn initial_styles(heading_size: nat, heading_font: Seq<char>) -> Seq<StyleDef> {
    seq![
        StyleDef {
            kind: StyleType::Paragraph,
            id: TITLE_STYLE@,
            name: TITLE_STYLE_NAME@,
            size: None,
            font: None,
        },
        StyleDef {
            kind: StyleType::Paragraph,
            id: HEADING_STYLE@,
            name: HEADING_STYLE_NAME@,
            size: Some(2 * heading_size),
            font: Some(escaped(heading_font)),
        },
    ]
}

/// The body of a document to which no file was added: the title, and the
/// table of contents over heading levels 1 to 3, which updates itself.
pub open spec fn initial_blocks() -> Seq<Block> {
    seq![
        Block::Heading { text: TITLE@, style: TITLE_STYLE@, page_break: false },
        Block::Contents { from: 1, to: 3, alias: CONTENTS_ALIAS@, auto: true },
    ]
}

/// One line of a file as its page shows it: in the monospace font, at twice
/// the configured size, with no space after it.
pub open spec fn code_line(line: Seq<char>, font_size: nat) -> Line {
    Line { text: run_text(line), font: CODE_FONT@, size: 2 * font_size, after: 0, after_lines: 0 }
}

/// The paragraphs of a file's table cell: one for each line of its text.
pub open spec fn code_lines(text: Seq<char>, font_size: nat) -> Seq<Line> {
    lines_of(text).map_values(|line: Seq<char>| code_line(line, font_size))
}

/// The page of one file: a heading with the file's path below the scanned
/// directory, before which the page breaks, and a table of one row and one
/// cell with the file's lines.
pub open spec fn page(heading: Seq<char>, text: Seq<char>, font_size: nat) -> Seq<Block> {
    seq![
        Block::Heading { text: run_text(heading), style: HEADING_STYLE@, page_break: true },
        Block::Table { rows: seq![seq![code_lines(text, font_size)]] },
    ]
}

/// A text without one of the seven characters that `docx_rs` rewrites or
/// drops is stored as it is, as a run's text and as any other string.
pub proof fn lemma_plain_kept(s: Seq<char>)
    requires
        plain(s),
    ensures
        escaped(s) == s,
        run_text(s) == s,
    decreases s.len(),
{
    if s.len() > 0 {
        lemma_plain_kept(s.drop_last());
        assert(plain_char(s[s.len() - 1]));
        assert(s.drop_last() + seq![s.last()] =~= s);
    }
}

/// A file's cell holds one paragraph for each line of the file, in order,
/// with no space after it. The paragraph's text is what `docx_rs` keeps of
/// the line: the line itself, letter for letter, where the line is plain.
pub proof fn lemma_one_paragraph_for_each_line(text: Seq<char>, font_size: nat)
    ensures
        code_lines(text, font_size).len() == lines_of(text).len(),
        forall|i: int|
            #![trigger code_lines(text, font_size)[i]]
            0 <= i < lines_of(text).len() ==> {
                let line = lines_of(text)[i];
                let shown = code_lines(text, font_size)[i];
                &&& shown.text == run_text(line)
                &&& shown.after == 0
                &&& shown.after_lines == 0
                &&& plain(line) ==> shown.text == line
            },
{
    assert forall|i: int| 0 <= i < lines_of(text).len() && plain(
        lines_of(text)[i],
    ) implies #[trigger] code_lines(text, font_size)[i].text == lines_of(text)[i] by {
        lemma_plain_kept(lines_of(text)[i]);
    }
}

/// The page of a file is a heading and a table. The heading breaks the
/// page and shows what `docx_rs` keeps of the file's path below the scanned
/// directory: the path itself, letter for letter, where it is plain. The
/// table has one row of one cell, which holds the file's lines.
pub proof fn lemma_page_names_its_file(heading: Seq<char>, text: Seq<char>, font_size: nat)
    ensures
        page(heading, text, font_size).len() == 2,
        page(heading, text, font_size)[0] matches Block::Heading { text: shown, page_break, .. }
            && page_break && shown == run_text(heading) && (plain(heading) ==> shown == heading),
        page(heading, text, font_size)[1] matches Block::Table { rows } && rows.len() == 1
            && rows[0].len() == 1 && rows[0][0] == code_lines(text, font_size),
{
    if plain(heading) {
        lemma_plain_kept(heading);
    }
}

proof fn lemma_names_plain()
    ensures
        plain(TITLE@),
        plain(TITLE_STYLE@),
        plain(TITLE_STYLE_NAME@),
        plain(HEADING_STYLE@),
        plain(HEADING_STYLE_NAME@),
        plain(CODE_FONT@),
{
    reveal_strlit("Heading1");
    reveal_strlit("Heading 1");
    reveal_strlit("Heading2");
    reveal_strlit("Heading 2");
    reveal_strlit("Source Code");
    reveal_strlit("Courier New");
}

/// The document as it stands before the directory is scanned.
pub fn initial_document(heading_size: usize, heading_font: &str) -> (docx: Docx)
    requires
        2 * heading_size <= usize::MAX,
    ensures
        docx_styles(docx) == initial_styles(heading_size as nat, heading_font@),
        docx_blocks(docx) == initial_blocks(),
{
    proof {
        lemma_names_plain();
        lemma_plain_kept(TITLE@);
        lemma_plain_kept(TITLE_STYLE@);
        lemma_plain_kept(TITLE_STYLE_NAME@);
        lemma_plain_kept(HEADING_STYLE@);
        lemma_plain_kept(HEADING_STYLE_NAME@);
    }
    let docx = docx_new();
    let docx = docx_add_style(docx, StyleType::Paragraph, TITLE_STYLE, TITLE_STYLE_NAME);
    let docx = docx_add_font_style(
        docx,
        StyleType::Paragraph,
        HEADING_STYLE,
        HEADING_STYLE_NAME,
        heading_size * 2,
        heading_font,
    );
    let docx = docx_add_heading(docx, TITLE, TITLE_STYLE);
    docx_add_auto_contents(docx, 1, 3, CONTENTS_ALIAS)
}

/// The table cell of a file: one paragraph for each line of its text, none
/// for an empty text.
pub fn file_cell(text: &str, font_size: usize) -> (cell: TableCell)
    requires
        2 * font_size <= usize::MAX,
    ensures
        cell_lines(cell) == code_lines(text@, font_size as nat),
{
    proof {
        lemma_names_plain();
        lemma_plain_kept(CODE_FONT@);
    }
    let lines = split_lines(text);
    let mut cell = cell_new();
    let mut i: usize = 0;
    while i < lines.len()
        invariant
            i <= lines.len(),
            2 * font_size <= usize::MAX,
            lines.deep_view() == lines_of(text@),
            escaped(CODE_FONT@) == CODE_FONT@,
            cell_lines(cell) == code_lines(text@, font_size as nat).take(i as int),
        decreases lines.len() - i,
    {
        assert(lines[i as int]@ == lines.deep_view()[i as int]);
        cell = cell_add_line(cell, lines[i].as_str(), CODE_FONT, font_size * 2, 0, 0);
        assert(code_lines(text@, font_size as nat).take(i as int).push(
            code_lines(text@, font_size as nat)[i as int],
        ) =~= code_lines(text@, font_size as nat).take(i as int + 1));
        i += 1;
    }
    assert(code_lines(text@, font_size as nat).take(i as int) =~= code_lines(
        text@,
        font_size as nat,
    ));
    cell
}

/// Adds the page of one file to the document: `heading` is what the heading
/// shows, the file's path below the scanned directory, and `text` the file's
/// whole text.
pub fn add_page(docx: Docx, heading: &str, text: &str, font_size: usize) -> (out: Docx)
    requires
        2 * font_size <= usize::MAX,
    ensures
        docx_styles(out) == docx_styles(docx),
        docx_blocks(out) == docx_blocks(docx) + page(heading@, text@, font_size as nat),
{
    proof {
        lemma_names_plain();
        lemma_plain_kept(HEADING_STYLE@);
    }
    let out = docx_add_page_heading(docx, heading, HEADING_STYLE, true);
    let out = docx_add_table(out, file_cell(text, font_size));
    assert(docx_blocks(out) =~= docx_blocks(docx) + page(heading@, text@, font_size as nat));
    out
}

/// Adds to `output` the page of the file at `path`, whose whole text is
/// `contents`. The heading shows `path` as it stands below `root`; a path
/// that does not lie below `root` is an error, and the document is dropped.
pub fn process_file(
    root: &str,
    path: &str,
    font_size: usize,
    contents: &str,
    output: Docx,
) -> (result: Result<Docx, Error>)
    requires
        2 * font_size <= usize::MAX,
    ensures
        match relative_to(path@, root@) {
            Some(heading) => result matches Ok(docx) && docx_styles(docx) == docx_styles(output)
                && docx_blocks(docx) == docx_blocks(output) + page(
                heading,
                contents@,
                font_size as nat,
            ),
            None => result matches Err(Error::StripPrefix(_)),
        },
{
    match strip_prefix(path, root) {
        Ok(heading) => Ok(add_page(output, heading.as_str(), contents, font_size)),
        Err(error) => Err(Error::StripPrefix(error)),
    }
}

} // verus!
