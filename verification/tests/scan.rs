use code2docx::document::initial_document;
use code2docx::error::Error;
use code2docx::scan::{scan_dir, Entry, Listing, Step};
use docx_rs::{
    Docx, DocumentChild, ParagraphChild, RunChild, TableCellContent, TableChild, TableRowChild,
};
use std::io;
use std::path::MAIN_SEPARATOR;

// A directory tree in memory, which answers the scan in place of a disk.
enum Node {
    File(&'static str, &'static str),
    // A file that cannot be read as text.
    Binary(&'static str),
    Dir(&'static str, Vec<Node>),
    // A directory that cannot be listed.
    Locked(&'static str),
    // An entry that cannot be read.
    Broken,
}

struct Trace {
    listed: Vec<String>,
    read: Vec<String>,
    reported: Vec<String>,
}

fn join(dir: &str, name: &str) -> String {
    format!("{}{}{}", dir, MAIN_SEPARATOR, name)
}

fn list(children: &[Node], dir: &str) -> Vec<Entry> {
    let mut entries = Vec::new();
    for node in children {
        entries.push(match node {
            Node::File(name, _) | Node::Binary(name) => Entry::File(join(dir, name)),
            Node::Dir(name, _) | Node::Locked(name) => Entry::Directory(join(dir, name)),
            Node::Broken => Entry::Unreadable(io::Error::new(
                io::ErrorKind::PermissionDenied,
                "entry is broken",
            )),
        });
    }
    entries
}

fn find<'a>(children: &'a [Node], dir: &str, path: &str) -> Option<&'a Node> {
    for node in children {
        let name = match node {
            Node::File(name, _) | Node::Binary(name) | Node::Dir(name, _) | Node::Locked(name) => {
                name
            }
            Node::Broken => continue,
        };
        let here = join(dir, name);
        if here == path {
            return Some(node);
        }
        if let Node::Dir(_, below) = node {
            if let Some(found) = find(below, &here, path) {
                return Some(found);
            }
        }
    }
    None
}

fn answer(root: &str, tree: &[Node], listing: Listing, trace: &mut Trace) -> Step {
    let path = listing.path().clone();
    trace.listed.push(path.clone());
    if path == root {
        return listing.listed(Ok(list(tree, root)));
    }
    match find(tree, root, &path) {
        Some(Node::Dir(_, below)) => listing.listed(Ok(list(below, &path))),
        Some(Node::Locked(_)) => {
            listing.listed(Err(io::Error::new(io::ErrorKind::PermissionDenied, "locked")))
        }
        _ => listing.listed(Err(io::Error::new(io::ErrorKind::NotFound, "no such directory"))),
    }
}

fn drive(root: &str, tree: &[Node], first: Listing, trace: &mut Trace) -> Result<Docx, Error> {
    let mut step = answer(root, tree, first, trace);
    loop {
        step = match step {
            Step::Done(docx) => return Ok(docx),
            Step::Fail(error) => return Err(error),
            Step::Report(error, walk) => {
                trace.reported.push(error.to_string());
                walk.resume()
            }
            Step::List(listing) => answer(root, tree, listing, trace),
            Step::Read(reading) => {
                let path = reading.path().clone();
                trace.read.push(path.clone());
                match find(tree, root, &path) {
                    Some(Node::File(_, text)) => reading.loaded(Ok(text.to_string())),
                    Some(Node::Binary(_)) => reading.loaded(Err(io::Error::new(
                        io::ErrorKind::InvalidData,
                        "stream did not contain valid UTF-8",
                    ))),
                    _ => reading.loaded(Err(io::Error::new(io::ErrorKind::NotFound, "no file"))),
                }
            }
        };
    }
}

fn scan(root: &str, tree: &[Node], accepted: &[&str]) -> (Result<Docx, Error>, Trace) {
    let mut trace = Trace { listed: Vec::new(), read: Vec::new(), reported: Vec::new() };
    let extensions = accepted.iter().map(|ext| ext.to_string()).collect();
    let first = scan_dir(root.to_string(), extensions, 8, initial_document(12, "Calibri Light"));
    let result = drive(root, tree, first, &mut trace);
    (result, trace)
}

fn run_text(child: &ParagraphChild) -> String {
    match child {
        ParagraphChild::Run(run) => {
            assert_eq!(run.children.len(), 1);
            match &run.children[0] {
                RunChild::Text(text) => text.text.clone(),
                other => panic!("a run holds {:?}", other),
            }
        }
        other => panic!("a paragraph holds {:?}", other),
    }
}

// The pages of a document: for each, its heading and the paragraphs of its cell.
fn pages(docx: &Docx) -> Vec<(String, Vec<String>)> {
    let body = &docx.document.children;
    assert!(body.len() >= 2);
    assert!(matches!(body[0], DocumentChild::Paragraph(_)));
    assert!(matches!(body[1], DocumentChild::TableOfContents(_)));
    assert_eq!(body.len() % 2, 0);
    let mut pages = Vec::new();
    let mut at = 2;
    while at < body.len() {
        let heading = match &body[at] {
            DocumentChild::Paragraph(paragraph) => {
                assert_eq!(paragraph.property.page_break_before, Some(true));
                assert_eq!(paragraph.children.len(), 1);
                run_text(&paragraph.children[0])
            }
            other => panic!("expected a heading, found {:?}", other),
        };
        let lines = match &body[at + 1] {
            DocumentChild::Table(table) => {
                assert_eq!(table.rows.len(), 1);
                let TableChild::TableRow(row) = &table.rows[0];
                assert_eq!(row.cells.len(), 1);
                let TableRowChild::TableCell(cell) = &row.cells[0];
                let mut lines = Vec::new();
                for content in &cell.children {
                    match content {
                        TableCellContent::Paragraph(paragraph) => {
                            assert_eq!(paragraph.children.len(), 1);
                            lines.push(run_text(&paragraph.children[0]));
                        }
                        other => panic!("a cell holds {:?}", other),
                    }
                }
                lines
            }
            other => panic!("expected a table, found {:?}", other),
        };
        pages.push((heading, lines));
        at += 2;
    }
    pages
}

fn strings(items: &[&str]) -> Vec<String> {
    items.iter().map(|item| item.to_string()).collect()
}

#[test]
fn two_files_make_two_pages() {
    let tree = vec![
        Node::File("a.rs", "fn main() {}"),
        Node::Dir("sub", vec![Node::File("b.py", "print(1)\nprint(2)")]),
    ];
    let (result, trace) = scan("proj", &tree, &["rs", "py"]);
    let docx = result.unwrap();
    assert_eq!(
        pages(&docx),
        vec![
            ("a.rs".to_string(), strings(&["fn main() {}"])),
            (join("sub", "b.py"), strings(&["print(1)", "print(2)"])),
        ]
    );
    assert_eq!(trace.listed, vec!["proj".to_string(), join("proj", "sub")]);
    assert_eq!(trace.read, vec![join("proj", "a.rs"), join(&join("proj", "sub"), "b.py")]);
    assert_eq!(docx.styles.styles.len(), 2);
}

#[test]
fn excluded_extension_makes_no_page() {
    let tree = vec![Node::File("readme.md", "# hello")];
    let (result, trace) = scan("proj", &tree, &["rs"]);
    let docx = result.unwrap();
    assert_eq!(docx.document.children.len(), 2);
    assert!(pages(&docx).is_empty());
    assert!(trace.read.is_empty());
}

#[test]
fn empty_directory_leaves_title_and_contents() {
    let (result, trace) = scan("proj", &[], &["rs", "py"]);
    let docx = result.unwrap();
    assert_eq!(docx.document.children.len(), 2);
    assert!(pages(&docx).is_empty());
    assert_eq!(trace.listed, vec!["proj".to_string()]);
    assert!(trace.read.is_empty());
}

#[test]
fn each_accepted_file_at_any_depth_makes_one_page() {
    let tree = vec![
        Node::File("a.rs", "1"),
        Node::File("notes", "no extension"),
        Node::Dir(
            "x",
            vec![
                Node::File("b.RS", "2"),
                Node::File("c.md", "excluded"),
                Node::Dir(
                    "y",
                    vec![Node::File("d.py", "3"), Node::Dir("z", vec![Node::File("e.Py", "4")])],
                ),
                Node::Dir("empty", vec![]),
            ],
        ),
        Node::File("f.txt", "excluded"),
        Node::File("g.py", "5"),
    ];
    let (result, _) = scan("proj", &tree, &["rs", "py"]);
    let docx = result.unwrap();
    let found = pages(&docx);
    assert_eq!(found.len(), 5);
    assert_eq!(docx.document.children.len(), 2 + 2 * 5);
    let headings: Vec<String> = found.iter().map(|page| page.0.clone()).collect();
    assert_eq!(
        headings,
        vec![
            "a.rs".to_string(),
            join("x", "b.RS"),
            join(&join("x", "y"), "d.py"),
            join(&join(&join("x", "y"), "z"), "e.Py"),
            "g.py".to_string(),
        ]
    );
}

#[test]
fn directory_is_walked_before_the_entry_that_follows_it() {
    let tree = vec![
        Node::Dir("first", vec![Node::File("in.rs", "inner")]),
        Node::File("after.rs", "outer"),
    ];
    let (result, _) = scan("proj", &tree, &["rs"]);
    let headings: Vec<String> = pages(&result.unwrap()).into_iter().map(|page| page.0).collect();
    assert_eq!(headings, vec![join("first", "in.rs"), "after.rs".to_string()]);
}

#[test]
fn file_without_extension_is_skipped() {
    let tree = vec![
        Node::File("Makefile", "all:"),
        Node::File(".gitignore", "target"),
        Node::File("rs", "not an extension"),
    ];
    let (result, trace) = scan("proj", &tree, &["rs", "gitignore", "", "makefile"]);
    assert!(pages(&result.unwrap()).is_empty());
    assert!(trace.read.is_empty());
}

#[test]
fn file_with_empty_extension_is_skipped() {
    let tree = vec![Node::File("notes.", "text"), Node::File("a.rs", "x")];
    let (result, trace) = scan("proj", &tree, &["", "rs"]);
    let headings: Vec<String> = pages(&result.unwrap()).into_iter().map(|page| page.0).collect();
    assert_eq!(headings, vec!["a.rs".to_string()]);
    assert_eq!(trace.read, vec![join("proj", "a.rs")]);
}

#[test]
fn extension_is_matched_without_regard_to_case() {
    let tree = vec![Node::File("X.RS", "x"), Node::File("y.Rs", "y"), Node::File("z.rs", "z")];
    let (result, _) = scan("proj", &tree, &["rs"]);
    let headings: Vec<String> = pages(&result.unwrap()).into_iter().map(|page| page.0).collect();
    assert_eq!(headings, strings(&["X.RS", "y.Rs", "z.rs"]));
}

#[test]
fn accepted_extension_in_upper_case_matches_nothing() {
    let tree = vec![Node::File("x.RS", "x"), Node::File("y.rs", "y")];
    let (result, _) = scan("proj", &tree, &["RS"]);
    assert!(pages(&result.unwrap()).is_empty());
}

#[test]
fn only_the_last_extension_counts() {
    let tree = vec![Node::File("a.tar.gz", "x"), Node::File("b.rs.bak", "y")];
    let (result, _) = scan("proj", &tree, &["gz", "rs"]);
    let headings: Vec<String> = pages(&result.unwrap()).into_iter().map(|page| page.0).collect();
    assert_eq!(headings, strings(&["a.tar.gz"]));
}

#[test]
fn heading_three_levels_deep_is_the_path_below_the_root() {
    let tree = vec![Node::Dir(
        "one",
        vec![Node::Dir("two", vec![Node::Dir("three", vec![Node::File("deep.rs", "x")])])],
    )];
    let root = join(&join("", "home"), "proj");
    let (result, _) = scan(&root, &tree, &["rs"]);
    let headings: Vec<String> = pages(&result.unwrap()).into_iter().map(|page| page.0).collect();
    assert_eq!(headings, vec![join(&join(&join("one", "two"), "three"), "deep.rs")]);
}

#[test]
fn file_of_n_lines_has_n_paragraphs() {
    let tree = vec![
        Node::File("zero.txt", ""),
        Node::File("one.txt", "only"),
        Node::File("four.txt", "a\n  b  \n\nd\n"),
    ];
    let (result, _) = scan("proj", &tree, &["txt"]);
    assert_eq!(
        pages(&result.unwrap()),
        vec![
            ("zero.txt".to_string(), strings(&[])),
            ("one.txt".to_string(), strings(&["only"])),
            ("four.txt".to_string(), strings(&["a", "  b  ", "", "d"])),
        ]
    );
}

#[test]
fn unreadable_entry_is_reported_and_passed_over() {
    let tree = vec![Node::File("a.rs", "1"), Node::Broken, Node::File("b.rs", "2")];
    let (result, trace) = scan("proj", &tree, &["rs"]);
    let headings: Vec<String> = pages(&result.unwrap()).into_iter().map(|page| page.0).collect();
    assert_eq!(headings, strings(&["a.rs", "b.rs"]));
    assert_eq!(trace.reported, strings(&["entry is broken"]));
}

#[test]
fn directory_that_cannot_be_listed_ends_the_scan() {
    let tree = vec![
        Node::File("a.rs", "1"),
        Node::Locked("secret"),
        Node::File("b.rs", "2"),
    ];
    let (result, trace) = scan("proj", &tree, &["rs"]);
    match result {
        Err(Error::IO(error)) => {
            assert_eq!(error.kind(), io::ErrorKind::PermissionDenied);
            assert_eq!(error.to_string(), "locked");
        }
        Err(other) => panic!("expected an I/O error, found {:?}", other),
        Ok(_) => panic!("expected an I/O error, found a document"),
    }
    assert_eq!(trace.read, vec![join("proj", "a.rs")]);
}

#[test]
fn root_that_cannot_be_listed_ends_the_scan() {
    let first = scan_dir("proj".to_string(), strings(&["rs"]), 8, Docx::new());
    let step = first.listed(Err(io::Error::new(io::ErrorKind::NotFound, "gone")));
    match step {
        Step::Fail(Error::IO(error)) => assert_eq!(error.kind(), io::ErrorKind::NotFound),
        _ => panic!("expected an I/O error"),
    }
}

#[test]
fn accepted_file_that_is_no_text_ends_the_scan() {
    let tree = vec![
        Node::File("a.txt", "1"),
        Node::Binary("image.txt"),
        Node::File("b.txt", "2"),
    ];
    let (result, trace) = scan("proj", &tree, &["txt"]);
    match result {
        Err(Error::IO(error)) => assert_eq!(error.kind(), io::ErrorKind::InvalidData),
        Err(other) => panic!("expected an I/O error, found {:?}", other),
        Ok(_) => panic!("expected an I/O error, found a document"),
    }
    assert_eq!(trace.read, vec![join("proj", "a.txt"), join("proj", "image.txt")]);
}

#[test]
fn file_that_gets_no_page_is_never_read() {
    let tree = vec![Node::Binary("image.png"), Node::File("a.rs", "1")];
    let (result, trace) = scan("proj", &tree, &["rs"]);
    assert_eq!(pages(&result.unwrap()).len(), 1);
    assert_eq!(trace.read, vec![join("proj", "a.rs")]);
}

#[test]
fn file_outside_the_root_ends_the_scan() {
    let first = scan_dir("proj".to_string(), strings(&["rs"]), 8, Docx::new());
    let entries = vec![
        Entry::File(join("proj", "skipped.md")),
        Entry::File(join("elsewhere", "a.rs")),
        Entry::File(join("proj", "b.rs")),
    ];
    match first.listed(Ok(entries)) {
        Step::Fail(Error::StripPrefix(error)) => assert_eq!(error.to_string(), "prefix not found"),
        _ => panic!("expected StripPrefix"),
    }
}

#[test]
fn file_outside_the_root_that_gets_no_page_is_passed_over() {
    let first = scan_dir("proj".to_string(), strings(&["rs"]), 8, Docx::new());
    let entries = vec![Entry::File(join("elsewhere", "a.md"))];
    match first.listed(Ok(entries)) {
        Step::Done(docx) => assert!(docx.document.children.is_empty()),
        _ => panic!("expected the end of the scan"),
    }
}

#[test]
fn first_step_lists_the_root() {
    let first = scan_dir("some root".to_string(), strings(&["rs"]), 8, Docx::new());
    assert_eq!(first.path(), "some root");
}

#[test]
fn steps_name_the_paths_to_list_and_to_read() {
    let first = scan_dir("proj".to_string(), strings(&["rs"]), 8, Docx::new());
    let entries = vec![
        Entry::File(join("proj", "a.rs")),
        Entry::Directory(join("proj", "sub")),
    ];
    let reading = match first.listed(Ok(entries)) {
        Step::Read(reading) => reading,
        _ => panic!("expected a file to read"),
    };
    assert_eq!(reading.path(), &join("proj", "a.rs"));
    let listing = match reading.loaded(Ok("x".to_string())) {
        Step::List(listing) => listing,
        _ => panic!("expected a directory to list"),
    };
    assert_eq!(listing.path(), &join("proj", "sub"));
    match listing.listed(Ok(Vec::new())) {
        Step::Done(docx) => assert_eq!(docx.document.children.len(), 2),
        _ => panic!("expected the end of the scan"),
    }
}
