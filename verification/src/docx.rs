//! The document under construction: what it holds, and the calls of `docx_rs`
//! that fill it.
//!
//! A `Docx` is opaque here. Its contents are spoken of through three names,
//! `docx_styles`, `docx_blocks` and `cell_lines`, and every function of this
//! file that hands a `Docx` or a `TableCell` on says what it did to them.
//! None of these functions is proved: each states what the source of
//! `docx_rs` shows of the builder calls in its body.
//!
//! `docx_rs` draws the id of every paragraph from a counter of 32 bits that
//! each thread keeps, and stops the program once the counter is used up. No
//! argument decides that, so no contract here can exclude it: a thread can
//! make 4294967294 paragraphs between two documents that it builds.

use docx_rs::{
    Docx, LineSpacing, Paragraph, Run, RunFonts, Style, StyleType, Table, TableCell,
    TableOfContents, TableRow,
};
use vstd::prelude::*;

verus! {

/// `docx_rs::Docx`, the document: nothing of it is seen here but through
/// `docx_styles` and `docx_blocks`.
#[verifier::external_type_specification]
#[verifier::external_body]
pub struct ExDocx(Docx);

/// `docx_rs::TableCell`: nothing of it is seen here but through
/// `cell_lines`.
#[verifier::external_type_specification]
#[verifier::external_body]
pub struct ExTableCell(TableCell);

/// `docx_rs::StyleType`, the kinds of style, an enum without fields: its
/// five variants are seen here as they are declared.
#[verifier::external_type_specification]
pub struct ExStyleType(StyleType);

/// A named style as the document registers it.
pub struct StyleDef {
    pub kind: StyleType,
    pub id: Seq<char>,
    pub name: Seq<char>,
    /// The font size in half-points, where the style sets one.
    pub size: Option<nat>,
    /// The font family for ASCII text, where the style sets one.
    pub font: Option<Seq<char>>,
}

/// A paragraph of a table cell: one run of text in one font.
pub struct Line {
    pub text: Seq<char>,
    pub font: Seq<char>,
    /// The font size in half-points.
    pub size: nat,
    /// The space after the paragraph, in twentieths of a point.
    pub after: nat,
    /// The space after the paragraph, in hundredths of a line.
    pub after_lines: nat,
}

/// A block-level element of the document's body.
pub enum Block {
    /// A paragraph of one run in a named style.
    Heading { text: Seq<char>, style: Seq<char>, page_break: bool },
    /// The directive that stands for the table of contents.
    Contents { from: nat, to: nat, alias: Seq<char>, auto: bool },
    /// A table: its rows, the cells of each row, the paragraphs of each cell.
    Table { rows: Seq<Seq<Seq<Line>>> },
}

/// What `docx_rs` keeps of a character of a string that it stores: XML's five
/// special characters and the line feed as entities, no carriage return.
pub open spec fn escaped_char(c: char) -> Seq<char> {
    if c == '&' {
        seq!['&', 'a', 'm', 'p', ';']
    } else if c == '<' {
        seq!['&', 'l', 't', ';']
    } else if c == '>' {
        seq!['&', 'g', 't', ';']
    } else if c == '"' {
        seq!['&', 'q', 'u', 'o', 't', ';']
    } else if c == '\'' {
        seq!['&', 'a', 'p', 'o', 's', ';']
    } else if c == '\n' {
        seq!['&', '#', 'x', 'A', ';']
    } else if c == '\r' {
        Seq::empty()
    } else {
        seq![c]
    }
}

/// What `docx_rs` keeps of a string that it stores as a style's id or name or
/// as a font family.
pub open spec fn escaped(s: Seq<char>) -> Seq<char>
    decreases s.len(),
{
    if s.len() == 0 {
        Seq::empty()
    } else {
        escaped(s.drop_last()) + escaped_char(s.last())
    }
}

/// What `docx_rs` keeps of the text of a run: line feeds leave first, the
/// rest is stored as `escaped` has it.
pub open spec fn run_text(s: Seq<char>) -> Seq<char>
    decreases s.len(),
{
    if s.len() == 0 {
        Seq::empty()
    } else if s.last() == '\n' {
        run_text(s.drop_last())
    } else {
        run_text(s.drop_last()) + escaped_char(s.last())
    }
}

/// The styles that a document has registered, in the order of registration.
pub uninterp spec fn docx_styles(docx: Docx) -> Seq<StyleDef>;

/// The blocks of a document's body, in order.
pub uninterp spec fn docx_blocks(docx: Docx) -> Seq<Block>;

/// The paragraphs of a table cell, in order.
pub uninterp spec fn cell_lines(cell: TableCell) -> Seq<Line>;

/// `Docx::new`: a document with no style of its own and an empty body.
#[verifier::external_body]
pub(crate) fn docx_new() -> (docx: Docx)
    ensures
        docx_styles(docx) == Seq::<StyleDef>::empty(),
        docx_blocks(docx) == Seq::<Block>::empty(),
{
    Docx::new()
}

/// `Docx::add_style` with a style that has an id and a name and nothing
/// else: the style is registered last, the body is as it was.
#[verifier::external_body]
pub(crate) fn docx_add_style(docx: Docx, kind: StyleType, id: &str, name: &str) -> (out: Docx)
    ensures
        docx_styles(out) == docx_styles(docx).push(
            StyleDef { kind, id: escaped(id@), name: escaped(name@), size: None, font: None },
        ),
        docx_blocks(out) == docx_blocks(docx),
{
    docx.add_style(Style::new(id, kind).name(name))
}

/// `Docx::add_style` with a style that also sets a font size, in
/// half-points, and a font family for ASCII text.
#[verifier::external_body]
pub(crate) fn docx_add_font_style(
    docx: Docx,
    kind: StyleType,
    id: &str,
    name: &str,
    size: usize,
    font: &str,
) -> (out: Docx)
    ensures
        docx_styles(out) == docx_styles(docx).push(
            StyleDef {
                kind,
                id: escaped(id@),
                name: escaped(name@),
                size: Some(size as nat),
                font: Some(escaped(font@)),
            },
        ),
        docx_blocks(out) == docx_blocks(docx),
{
    docx.add_style(Style::new(id, kind).name(name).size(size).fonts(RunFonts::new().ascii(font)))
}

/// `Docx::add_paragraph` with a paragraph of one run in a named style: the
/// paragraph comes last in the body, and nothing forces a page break before
/// it.
#[verifier::external_body]
pub(crate) fn docx_add_heading(docx: Docx, text: &str, style: &str) -> (out: Docx)
    ensures
        docx_styles(out) == docx_styles(docx),
        docx_blocks(out) == docx_blocks(docx).push(
            Block::Heading { text: run_text(text@), style: escaped(style@), page_break: false },
        ),
{
    docx.add_paragraph(Paragraph::new().add_run(Run::new().add_text(text)).style(style))
}

/// `Docx::add_paragraph` with a paragraph of one run in a named style, which
/// says whether a page break is forced before it.
#[verifier::external_body]
pub(crate) fn docx_add_page_heading(docx: Docx, text: &str, style: &str, page_break: bool) -> (out:
    Docx)
    ensures
        docx_styles(out) == docx_styles(docx),
        docx_blocks(out) == docx_blocks(docx).push(
            Block::Heading { text: run_text(text@), style: escaped(style@), page_break },
        ),
{
    docx.add_paragraph(
        Paragraph::new().add_run(Run::new().add_text(text)).style(style).page_break_before(
            page_break,
        ),
    )
}

/// `Docx::add_table_of_contents` with a directive that spans a range of
/// heading levels, shows an alias and updates itself: the directive comes
/// last in the body. The alias is stored as it is given.
#[verifier::external_body]
pub(crate) fn docx_add_auto_contents(docx: Docx, from: usize, to: usize, alias: &str) -> (out: Docx)
    ensures
        docx_styles(out) == docx_styles(docx),
        docx_blocks(out) == docx_blocks(docx).push(
            Block::Contents { from: from as nat, to: to as nat, alias: alias@, auto: true },
        ),
{
    docx.add_table_of_contents(
        TableOfContents::new().heading_styles_range(from, to).alias(alias).auto(),
    )
}

/// `TableCell::new`: a cell without paragraphs.
#[verifier::external_body]
pub(crate) fn cell_new() -> (cell: TableCell)
    ensures
        cell_lines(cell) == Seq::<Line>::empty(),
{
    TableCell::new()
}

/// `TableCell::add_paragraph` with a paragraph of one run, which sets the
/// run's font family for ASCII text, its size in half-points, and the space
/// after the paragraph: the paragraph comes last in the cell.
#[verifier::external_body]
pub(crate) fn cell_add_line(
    cell: TableCell,
    text: &str,
    font: &str,
    size: usize,
    after_lines: u32,
    after: u32,
) -> (out: TableCell)
    ensures
        cell_lines(out) == cell_lines(cell).push(
            Line {
                text: run_text(text@),
                font: escaped(font@),
                size: size as nat,
                after: after as nat,
                after_lines: after_lines as nat,
            },
        ),
{
    cell.add_paragraph(
        Paragraph::new().add_run(
            Run::new().add_text(text).fonts(RunFonts::new().ascii(font)).size(size),
        ).line_spacing(LineSpacing::new().after_lines(after_lines).after(after)),
    )
}

/// `Docx::add_table` with a table of one row that holds one cell: the table
/// comes last in the body.
#[verifier::external_body]
pub(crate) fn docx_add_table(docx: Docx, cell: TableCell) -> (out: Docx)
    ensures
        docx_styles(out) == docx_styles(docx),
        docx_blocks(out) == docx_blocks(docx).push(
            Block::Table { rows: seq![seq![cell_lines(cell)]] },
        ),
{
    docx.add_table(Table::new(vec![TableRow::new(vec![cell])]))
}

} // verus!
