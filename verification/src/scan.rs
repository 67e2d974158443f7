//! The scan of a directory tree, one question at a time.
//!
//! The scan itself reads nothing. It asks its caller to list a directory or
//! to read a file, takes the answer, and decides what comes next: a `Step`.
//! What is still to be visited is kept as one sequence of entries, the next
//! one first; the entries of a directory that was listed go in front of it,
//! so that a directory is walked to its end before the entry that follows it.

use crate::document::{add_page, page};
use crate::docx::{docx_blocks, docx_styles, Block, StyleDef};
use crate::error::Error;
use crate::filter::{file_qualifies, qualifies};
use crate::path::{relative_to, strip_prefix};
use docx_rs::Docx;
use vstd::prelude::*;

verus! {

/// What the listing of a directory yields for one of its entries.
pub enum Entry {
    /// The path of a directory.
    Directory(String),
    /// The path of anything that is no directory.
    File(String),
    /// An entry that could not be read.
    Unreadable(std::io::Error),
}

/// An entry, with the paths as sequences of characters.
pub enum EntryView {
    Directory(Seq<char>),
    File(Seq<char>),
    Unreadable(std::io::Error),
}

impl View for Entry {
    type V = EntryView;

    open spec fn view(&self) -> EntryView {
        match *self {
            Entry::Directory(path) => EntryView::Directory(path@),
            Entry::File(path) => EntryView::File(path@),
            Entry::Unreadable(error) => EntryView::Unreadable(error),
        }
    }
}

impl DeepView for Entry {
    type V = EntryView;

    open spec fn deep_view(&self) -> EntryView {
        self@
    }
}

/// A scan between two questions.
pub struct Walk {
    root: String,
    extensions: Vec<String>,
    font_size: usize,
    docx: Docx,
    /// What is still to be visited, the next entry last.
    todo: Vec<Entry>,
}

/// What a scan holds.
#[verifier::ext_equal]
pub struct WalkView {
    /// The directory that is scanned.
    pub root: Seq<char>,
    /// The accepted extensions.
    pub extensions: Seq<Seq<char>>,
    /// The configured size of a file's lines.
    pub font_size: nat,
    /// The styles of the document.
    pub styles: Seq<StyleDef>,
    /// The body of the document so far.
    pub blocks: Seq<Block>,
    /// What is still to be visited, the next entry first.
    pub todo: Seq<EntryView>,
}

impl WalkView {
    /// The scan once a directory was listed: its entries are visited
    /// first.
    pub open spec fn with_entries(self, entries: Seq<EntryView>) -> WalkView {
        WalkView { todo: entries + self.todo, ..self }
    }

    /// The scan once a file was read: the document has the file's page.
    pub open spec fn with_page(self, heading: Seq<char>, text: Seq<char>) -> WalkView {
        WalkView { blocks: self.blocks + page(heading, text, self.font_size), ..self }
    }
}

/// A scan that waits for the entries of a directory.
pub struct Listing {
    dir: String,
    walk: Walk,
}

/// A scan that waits for the text of a file.
pub struct Reading {
    file: String,
    heading: String,
    walk: Walk,
}

/// What a scan asks of its caller, or how it ended.
pub enum Step {
    /// List a directory, and hand the entries to `Listing::listed`.
    List(Listing),
    /// Read a file, and hand the text to `Reading::loaded`.
    Read(Reading),
    /// Tell of an entry that could not be read, then go on with
    /// `Walk::resume`.
    Report(std::io::Error, Walk),
    /// Nothing is left to visit: the document is complete.
    Done(Docx),
    /// The scan has failed, and its document is lost.
    Fail(Error),
}

/// The entries of a stack in the order in which they are visited.
pub open spec fn pending(todo: Seq<Entry>) -> Seq<EntryView> {
    Seq::new(todo.len(), |i: int| todo[todo.len() - 1 - i]@)
}

/// An entry that is passed over in silence: a file that gets no page.
pub open spec fn skipped(entry: EntryView, extensions: Seq<Seq<char>>) -> bool {
    entry matches EntryView::File(path) && !qualifies(path, extensions)
}

/// How many entries at the front of `todo` are passed over in silence.
pub open spec fn skip_count(todo: Seq<EntryView>, extensions: Seq<Seq<char>>) -> nat
    decreases todo.len(),
{
    if todo.len() > 0 && skipped(todo[0], extensions) {
        1 + skip_count(todo.drop_first(), extensions)
    } else {
        0
    }
}

/// Whether `step` is what a scan in state `walk` does next. It passes over
/// the files that get no page. Where nothing is left, it is done. Else the
/// first entry that is left decides: an unreadable one is reported, a
/// directory is to be listed, and a file is to be read, unless it does not
/// lie below the scanned directory, which ends the scan. What comes after
/// that entry is still to be visited.
pub open spec fn follows(step: Step, walk: WalkView) -> bool {
    let k = skip_count(walk.todo, walk.extensions) as int;
    let rest = WalkView { todo: walk.todo.skip(k + 1), ..walk };
    if k >= walk.todo.len() {
        step matches Step::Done(docx) && docx_styles(docx) == walk.styles && docx_blocks(docx)
            == walk.blocks
    } else {
        match walk.todo[k] {
            EntryView::Unreadable(error) => step matches Step::Report(told, next) && told == error
                && next@ == rest,
            EntryView::Directory(dir) => step matches Step::List(listing) && listing.dir() == dir
                && listing.walk() == rest,
            EntryView::File(file) => match relative_to(file, walk.root) {
                Some(heading) => step matches Step::Read(reading) && reading.file() == file
                    && reading.heading() == heading && reading.walk() == rest,
                None => step matches Step::Fail(Error::StripPrefix(_)),
            },
        }
    }
}

/// The entry on top of a stack is visited first.
proof fn lemma_pending_top(todo: Seq<Entry>)
    requires
        todo.len() > 0,
    ensures
        pending(todo) == seq![todo.last()@] + pending(todo.drop_last()),
{
    let below = pending(todo.drop_last());
    assert forall|i: int| 0 <= i < pending(todo).len() implies pending(todo)[i] == (seq![
        todo.last()@,
    ] + below)[i] by {
        if i > 0 {
            assert(below[i - 1] == todo.drop_last()[todo.len() - 1 - i]@);
        }
    }
    assert(pending(todo) =~= seq![todo.last()@] + below);
}

impl View for Walk {
    type V = WalkView;

    closed spec fn view(&self) -> WalkView {
        WalkView {
            root: self.root@,
            extensions: self.extensions.deep_view(),
            font_size: self.font_size as nat,
            styles: docx_styles(self.docx),
            blocks: docx_blocks(self.docx),
            todo: pending(self.todo@),
        }
    }
}

impl Walk {
    #[verifier::type_invariant]
    spec fn fits(&self) -> bool {
        2 * self.font_size <= usize::MAX
    }

    /// Goes on after a report.
    pub fn resume(self) -> (step: Step)
        ensures
            follows(step, self@),
    {
        self.advance()
    }

    fn advance(self) -> (step: Step)
        ensures
            follows(step, self@),
    {
        proof {
            use_type_invariant(&self);
        }
        let ghost start = self@;
        let Walk { root, extensions, font_size, docx, mut todo } = self;
        let ghost mut passed: int = 0;
        assert(start.todo.skip(0) =~= start.todo);
        loop
            invariant
                start == self@,
                2 * font_size <= usize::MAX,
                start.root == root@,
                start.extensions == extensions.deep_view(),
                start.font_size == font_size as nat,
                start.styles == docx_styles(docx),
                start.blocks == docx_blocks(docx),
                0 <= passed <= start.todo.len(),
                pending(todo@) == start.todo.skip(passed),
                skip_count(start.todo, start.extensions) == passed + skip_count(
                    start.todo.skip(passed),
                    start.extensions,
                ),
            decreases todo.len(),
        {
            let ghost before = todo@;
            assert(pending(before).len() == before.len());
            match todo.pop() {
                None => {
                    assert(passed == start.todo.len());
                    assert(skip_count(start.todo.skip(passed), start.extensions) == 0);
                    return Step::Done(docx);
                },
                Some(entry) => {
                    proof {
                        lemma_pending_top(before);
                        assert(start.todo.skip(passed)[0] == entry@);
                        assert(start.todo.skip(passed).drop_first() =~= start.todo.skip(passed + 1));
                        assert(pending(todo@) =~= start.todo.skip(passed).drop_first());
                        assert(start.todo[passed] == entry@);
                    }
                    let ghost rest = WalkView { todo: start.todo.skip(passed + 1), ..start };
                    match entry {
                        Entry::Unreadable(error) => {
                            let next = Walk { root, extensions, font_size, docx, todo };
                            assert(skip_count(start.todo.skip(passed), start.extensions) == 0);
                            assert(next@ =~= rest);
                            return Step::Report(error, next);
                        },
                        Entry::Directory(dir) => {
                            let walk = Walk { root, extensions, font_size, docx, todo };
                            assert(skip_count(start.todo.skip(passed), start.extensions) == 0);
                            assert(walk@ =~= rest);
                            return Step::List(Listing { dir, walk });
                        },
                        Entry::File(file) => {
                            if file_qualifies(file.as_str(), &extensions) {
                                assert(skip_count(start.todo.skip(passed), start.extensions) == 0);
                                match strip_prefix(file.as_str(), root.as_str()) {
                                    Ok(heading) => {
                                        let walk = Walk { root, extensions, font_size, docx, todo };
                                        assert(walk@ =~= rest);
                                        return Step::Read(Reading { file, heading, walk });
                                    },
                                    Err(error) => {
                                        return Step::Fail(Error::StripPrefix(error));
                                    },
                                }
                            }
                            proof {
                                passed = passed + 1;
                            }
                        },
                    }
                },
            }
        }
    }
}

/// Starts the scan of the directory `root`, which adds to `output` the page
/// of every file below `root` whose extension is among `file_exts`. Nothing
/// is visited yet: the first thing to do is to list `root` itself.
pub fn scan_dir(root: String, file_exts: Vec<String>, font_size: usize, output: Docx) -> (first:
    Listing)
    requires
        2 * font_size <= usize::MAX,
    ensures
        first.dir() == root@,
        first.walk() == (WalkView {
            root: root@,
            extensions: file_exts.deep_view(),
            font_size: font_size as nat,
            styles: docx_styles(output),
            blocks: docx_blocks(output),
            todo: Seq::empty(),
        }),
{
    let dir = root.clone();
    let walk = Walk { root, extensions: file_exts, font_size, docx: output, todo: Vec::new() };
    assert(walk@.todo =~= Seq::empty());
    Listing { dir, walk }
}

impl Listing {
    /// The directory to list.
    pub closed spec fn dir(&self) -> Seq<char> {
        self.dir@
    }

    /// The scan that waits for the listing.
    pub closed spec fn walk(&self) -> WalkView {
        self.walk@
    }

    /// The path of the directory to list.
    pub fn path(&self) -> (path: &String)
        ensures
            path@ == self.dir(),
    {
        &self.dir
    }

    /// Takes the entries of the directory, in the order in which they were
    /// listed: they are visited next, before what was left. A directory that
    /// could not be listed ends the scan.
    pub fn listed(self, entries: Result<Vec<Entry>, std::io::Error>) -> (step: Step)
        ensures
            match entries {
                Ok(entries) => follows(step, self.walk().with_entries(entries.deep_view())),
                Err(error) => step == Step::Fail(Error::IO(error)),
            },
    {
        match entries {
            Ok(entries) => {
                proof {
                    use_type_invariant(&self.walk);
                }
                let ghost listed = entries.deep_view();
                let ghost left = self.walk().todo;
                let Walk { root, extensions, font_size, docx, mut todo } = self.walk;
                let mut entries = entries;
                while entries.len() > 0
                    invariant
                        entries.len() <= listed.len(),
                        entries.deep_view() == listed.take(entries.len() as int),
                        pending(todo@) == listed.skip(entries.len() as int) + left,
                    decreases entries.len(),
                {
                    let ghost stack = todo@;
                    let ghost n = entries.len() as int;
                    assert(entries.deep_view()[n - 1] == entries@[n - 1]@);
                    match entries.pop() {
                        Some(entry) => {
                            todo.push(entry);
                            proof {
                                lemma_pending_top(todo@);
                                assert(todo@.drop_last() =~= stack);
                                assert(entries.deep_view() =~= listed.take(n - 1));
                                assert(listed.skip(n - 1) =~= seq![entry@] + listed.skip(n));
                                assert(pending(todo@) =~= listed.skip(n - 1) + left);
                            }
                        },
                        None => {},
                    }
                }
                assert(listed.skip(0) =~= listed);
                let walk = Walk { root, extensions, font_size, docx, todo };
                walk.advance()
            },
            Err(error) => Step::Fail(Error::IO(error)),
        }
    }
}

impl Reading {
    /// The scan that waits for the text.
    pub closed spec fn walk(&self) -> WalkView {
        self.walk@
    }

    /// The file to read.
    pub closed spec fn file(&self) -> Seq<char> {
        self.file@
    }

    /// What the heading of the file's page will show: the file's path below
    /// the scanned directory.
    pub closed spec fn heading(&self) -> Seq<char> {
        self.heading@
    }

    /// The path of the file to read.
    pub fn path(&self) -> (path: &String)
        ensures
            path@ == self.file(),
    {
        &self.file
    }

    /// Takes the text of the file and adds its page to the document. A file
    /// that could not be read as text ends the scan.
    pub fn loaded(self, text: Result<String, std::io::Error>) -> (step: Step)
        ensures
            match text {
                Ok(text) => follows(step, self.walk().with_page(self.heading(), text@)),
                Err(error) => step == Step::Fail(Error::IO(error)),
            },
    {
        match text {
            Ok(text) => {
                proof {
                    use_type_invariant(&self.walk);
                }
                let Walk { root, extensions, font_size, docx, todo } = self.walk;
                let docx = add_page(docx, self.heading.as_str(), text.as_str(), font_size);
                let walk = Walk { root, extensions, font_size, docx, todo };
                walk.advance()
            },
            Err(error) => Step::Fail(Error::IO(error)),
        }
    }
}

} // verus!
