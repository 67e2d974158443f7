//! A directory tree as the scan meets it, and what the scan makes of it.

use crate::document::page;
use crate::docx::{docx_blocks, Block};
use crate::filter::qualifies;
use crate::path::relative_to;
use crate::scan::{follows, skip_count, skipped, EntryView, Step, WalkView};
use vstd::prelude::*;

verus! {

/// An entry of a directory, with what reading it gives.
pub enum Node {
    /// An entry that cannot be read.
    Unreadable(std::io::Error),
    /// Anything that is no directory, with its text or the error of the
    /// attempt to read it as text.
    File { path: Seq<char>, text: Result<Seq<char>, std::io::Error> },
    /// A directory, with its entries in the order of the listing or the
    /// error of the attempt to list it.
    Directory { path: Seq<char>, listing: Result<Seq<Node>, std::io::Error> },
}

/// What a scan goes by.
pub struct Rules {
    /// The directory that is scanned.
    pub root: Seq<char>,
    /// The accepted extensions.
    pub extensions: Seq<Seq<char>>,
    /// The configured size of a file's lines.
    pub font_size: nat,
}

/// Why a scan ended without a document.
pub enum Failure {
    /// A file that gets a page does not lie below the scanned directory.
    NotBelowRoot,
    /// A directory could not be listed, or a file that gets a page could not
    /// be read as text.
    IO(std::io::Error),
}

/// The document's body after the entries `nodes` and all that lies below
/// them, begun with `blocks`: each entry in turn, a directory to its end
/// before the entry that follows it. A file that gets a page adds the page;
/// an unreadable entry and a file that gets no page add nothing; the first
/// failure ends it all.
pub open spec fn scanned(rules: Rules, nodes: Seq<Node>, blocks: Seq<Block>) -> Result<
    Seq<Block>,
    Failure,
>
    decreases nodes,
{
    if nodes.len() == 0 {
        Ok(blocks)
    } else {
        let rest = nodes.drop_first();
        match nodes[0] {
            Node::Unreadable(_) => scanned(rules, rest, blocks),
            Node::Directory { listing, .. } => match listing {
                Ok(children) => match scanned(rules, children, blocks) {
                    Ok(body) => scanned(rules, rest, body),
                    Err(failure) => Err(failure),
                },
                Err(error) => Err(Failure::IO(error)),
            },
            Node::File { path, text } => if !qualifies(path, rules.extensions) {
                scanned(rules, rest, blocks)
            } else {
                match (relative_to(path, rules.root), text) {
                    (None, _) => Err(Failure::NotBelowRoot),
                    (Some(_), Err(error)) => Err(Failure::IO(error)),
                    (Some(heading), Ok(text)) => scanned(
                        rules,
                        rest,
                        blocks + page(heading, text, rules.font_size),
                    ),
                }
            },
        }
    }
}

/// The entry that a listing yields for a node.
pub open spec fn entry_of(node: Node) -> EntryView {
    match node {
        Node::Unreadable(error) => EntryView::Unreadable(error),
        Node::File { path, .. } => EntryView::File(path),
        Node::Directory { path, .. } => EntryView::Directory(path),
    }
}

/// The entries that a listing yields for the nodes of a directory.
pub open spec fn entries_of(nodes: Seq<Node>) -> Seq<EntryView> {
    nodes.map_values(|node: Node| entry_of(node))
}

/// How many files get a page at a node or below it.
pub open spec fn wanted_at(rules: Rules, node: Node) -> nat
    decreases node,
{
    match node {
        Node::Unreadable(_) => 0,
        Node::File { path, .. } => if qualifies(path, rules.extensions) {
            1
        } else {
            0
        },
        Node::Directory { listing, .. } => match listing {
            Ok(children) => wanted(rules, children),
            Err(_) => 0,
        },
    }
}

/// How many files get a page among `nodes` and below them, at any depth.
pub open spec fn wanted(rules: Rules, nodes: Seq<Node>) -> nat
    decreases nodes,
{
    if nodes.len() == 0 {
        0
    } else {
        wanted_at(rules, nodes[0]) + wanted(rules, nodes.drop_first())
    }
}

/// How many entries there are at a node and below it.
pub open spec fn weight(node: Node) -> nat
    decreases node,
{
    match node {
        Node::Directory { listing, .. } => match listing {
            Ok(children) => 1 + total(children),
            Err(_) => 1,
        },
        _ => 1,
    }
}

/// How many entries there are among `nodes` and below them.
pub open spec fn total(nodes: Seq<Node>) -> nat
    decreases nodes,
{
    if nodes.len() == 0 {
        0
    } else {
        weight(nodes[0]) + total(nodes.drop_first())
    }
}

/// The document's body after a scan that is answered from `nodes`: what the
/// steps of a `Walk` make of `blocks` when `nodes` are the entries still to
/// be visited, each listing is answered with the entries of the directory
/// asked for and each reading with the text of the file asked for. The
/// files that get no page are passed over; the entry after them decides, as
/// `follows` has it; the entries of a directory go in front of what is left.
pub open spec fn drive(rules: Rules, nodes: Seq<Node>, blocks: Seq<Block>) -> Result<
    Seq<Block>,
    Failure,
>
    decreases total(nodes),
    via drive_ends
{
    let passed = skip_count(entries_of(nodes), rules.extensions) as int;
    if passed >= nodes.len() {
        Ok(blocks)
    } else {
        let left = nodes.skip(passed + 1);
        match nodes[passed] {
            Node::Unreadable(_) => drive(rules, left, blocks),
            Node::Directory { listing, .. } => match listing {
                Ok(children) => drive(rules, children + left, blocks),
                Err(error) => Err(Failure::IO(error)),
            },
            Node::File { path, text } => match (relative_to(path, rules.root), text) {
                (None, _) => Err(Failure::NotBelowRoot),
                (Some(_), Err(error)) => Err(Failure::IO(error)),
                (Some(heading), Ok(text)) => drive(
                    rules,
                    left,
                    blocks + page(heading, text, rules.font_size),
                ),
            },
        }
    }
}

#[via_fn]
proof fn drive_ends(rules: Rules, nodes: Seq<Node>, blocks: Seq<Block>) {
    lemma_less_is_left(rules, nodes);
}

proof fn lemma_total_of_both(first: Seq<Node>, second: Seq<Node>)
    ensures
        total(first + second) == total(first) + total(second),
    decreases first.len(),
{
    if first.len() == 0 {
        assert(first + second =~= second);
    } else {
        assert((first + second).drop_first() =~= first.drop_first() + second);
        lemma_total_of_both(first.drop_first(), second);
    }
}

/// Whatever entry a scan stops at, less is left to visit after it than
/// before, also where the entry is a directory and its entries go in front.
proof fn lemma_less_is_left(rules: Rules, nodes: Seq<Node>)
    ensures
        ({
            let passed = skip_count(entries_of(nodes), rules.extensions) as int;
            passed < nodes.len() ==> {
                &&& total(nodes.skip(passed + 1)) < total(nodes)
                &&& nodes[passed] matches Node::Directory { listing: Ok(children), .. } ==> total(
                    children + nodes.skip(passed + 1),
                ) < total(nodes)
            }
        }),
{
    let passed = skip_count(entries_of(nodes), rules.extensions) as int;
    if passed < nodes.len() {
        let left = nodes.skip(passed + 1);
        let at = seq![nodes[passed]];
        assert(nodes =~= nodes.take(passed) + (at + left));
        lemma_total_of_both(nodes.take(passed), at + left);
        lemma_total_of_both(at, left);
        assert(at.drop_first() =~= Seq::<Node>::empty());
        assert(total(Seq::<Node>::empty()) == 0);
        assert(total(at) == weight(nodes[passed]));
        if let Node::Directory { listing: Ok(children), .. } = nodes[passed] {
            lemma_total_of_both(children, left);
        }
    }
}

proof fn lemma_scanned_both(rules: Rules, first: Seq<Node>, second: Seq<Node>, blocks: Seq<Block>)
    ensures
        scanned(rules, first + second, blocks) == match scanned(rules, first, blocks) {
            Ok(body) => scanned(rules, second, body),
            Err(failure) => Err(failure),
        },
    decreases first.len(),
{
    if first.len() == 0 {
        assert(first + second =~= second);
    } else {
        let rest = first.drop_first();
        assert((first + second).drop_first() =~= rest + second);
        assert((first + second)[0] == first[0]);
        match first[0] {
            Node::Unreadable(_) => {
                lemma_scanned_both(rules, rest, second, blocks);
            },
            Node::Directory { listing, .. } => {
                if let Ok(children) = listing {
                    if let Ok(body) = scanned(rules, children, blocks) {
                        lemma_scanned_both(rules, rest, second, body);
                    }
                }
            },
            Node::File { path, text } => {
                if !qualifies(path, rules.extensions) {
                    lemma_scanned_both(rules, rest, second, blocks);
                } else if let (Some(heading), Ok(text)) = (relative_to(path, rules.root), text) {
                    lemma_scanned_both(
                        rules,
                        rest,
                        second,
                        blocks + page(heading, text, rules.font_size),
                    );
                }
            },
        }
    }
}

proof fn lemma_scanned_passes_over(rules: Rules, nodes: Seq<Node>, blocks: Seq<Block>)
    ensures
        scanned(rules, nodes, blocks) == scanned(
            rules,
            nodes.skip(skip_count(entries_of(nodes), rules.extensions) as int),
            blocks,
        ),
        skip_count(entries_of(nodes), rules.extensions) <= nodes.len(),
    decreases nodes.len(),
{
    let entries = entries_of(nodes);
    if nodes.len() > 0 && skipped(entries[0], rules.extensions) {
        let rest = nodes.drop_first();
        assert(entries.drop_first() =~= entries_of(rest));
        lemma_scanned_passes_over(rules, rest, blocks);
        let passed = skip_count(entries_of(rest), rules.extensions) as int;
        assert(rest.skip(passed) =~= nodes.skip(passed + 1));
    } else {
        assert(nodes.skip(0) =~= nodes);
    }
}

/// A scan that is answered step by step from a tree ends as the walk of
/// the tree does that takes each entry in turn and each directory to its
/// end: with the same body, or with the same failure.
pub proof fn lemma_drive_is_scanned(rules: Rules, nodes: Seq<Node>, blocks: Seq<Block>)
    ensures
        drive(rules, nodes, blocks) == scanned(rules, nodes, blocks),
    decreases total(nodes),
{
    let passed = skip_count(entries_of(nodes), rules.extensions) as int;
    lemma_scanned_passes_over(rules, nodes, blocks);
    lemma_less_is_left(rules, nodes);
    if passed >= nodes.len() {
        assert(nodes.skip(passed).len() == 0);
    } else {
        let from = nodes.skip(passed);
        let left = nodes.skip(passed + 1);
        assert(from.drop_first() =~= left);
        assert(from[0] == nodes[passed]);
        assert(entries_of(nodes).skip(passed) =~= entries_of(from));
        lemma_stops_at_unskipped(entries_of(nodes), rules.extensions);
        assert(!skipped(entry_of(nodes[passed]), rules.extensions));
        match nodes[passed] {
            Node::Unreadable(_) => {
                lemma_drive_is_scanned(rules, left, blocks);
            },
            Node::Directory { listing, .. } => {
                if let Ok(children) = listing {
                    lemma_drive_is_scanned(rules, children + left, blocks);
                    lemma_scanned_both(rules, children, left, blocks);
                }
            },
            Node::File { path, text } => {
                if let (Some(heading), Ok(text)) = (relative_to(path, rules.root), text) {
                    lemma_drive_is_scanned(
                        rules,
                        left,
                        blocks + page(heading, text, rules.font_size),
                    );
                }
            },
        }
    }
}

proof fn lemma_stops_at_unskipped(todo: Seq<EntryView>, extensions: Seq<Seq<char>>)
    ensures
        skip_count(todo, extensions) <= todo.len(),
        skip_count(todo, extensions) < todo.len() ==> !skipped(
            todo[skip_count(todo, extensions) as int],
            extensions,
        ),
    decreases todo.len(),
{
    if todo.len() > 0 && skipped(todo[0], extensions) {
        lemma_stops_at_unskipped(todo.drop_first(), extensions);
    }
}

/// A scan that succeeds leaves what the document held in front, and adds
/// two blocks, a heading and a table, for each file of the tree that gets a
/// page, at whatever depth it lies, and nothing else.
pub proof fn lemma_one_page_for_each_wanted_file(rules: Rules, nodes: Seq<Node>, blocks: Seq<Block>)
    ensures
        scanned(rules, nodes, blocks) matches Ok(body) ==> {
            &&& body.len() == blocks.len() + 2 * wanted(rules, nodes)
            &&& body.take(blocks.len() as int) == blocks
        },
    decreases nodes,
{
    if nodes.len() > 0 {
        let rest = nodes.drop_first();
        assert(wanted(rules, nodes) == wanted_at(rules, nodes[0]) + wanted(rules, rest));
        match nodes[0] {
            Node::Unreadable(_) => {
                lemma_one_page_for_each_wanted_file(rules, rest, blocks);
            },
            Node::Directory { listing, .. } => {
                if let Ok(children) = listing {
                    assert(wanted_at(rules, nodes[0]) == wanted(rules, children));
                    lemma_one_page_for_each_wanted_file(rules, children, blocks);
                    if let Ok(inner) = scanned(rules, children, blocks) {
                        lemma_one_page_for_each_wanted_file(rules, rest, inner);
                        if let Ok(body) = scanned(rules, rest, inner) {
                            assert(body.take(blocks.len() as int) =~= body.take(
                                inner.len() as int,
                            ).take(blocks.len() as int));
                        }
                    }
                }
            },
            Node::File { path, text } => {
                if !qualifies(path, rules.extensions) {
                    lemma_one_page_for_each_wanted_file(rules, rest, blocks);
                } else if let (Some(heading), Ok(text)) = (relative_to(path, rules.root), text) {
                    let inner = blocks + page(heading, text, rules.font_size);
                    lemma_one_page_for_each_wanted_file(rules, rest, inner);
                    if let Ok(body) = scanned(rules, rest, inner) {
                        assert(body.take(blocks.len() as int) =~= body.take(
                            inner.len() as int,
                        ).take(blocks.len() as int));
                        assert(inner.take(blocks.len() as int) =~= blocks);
                    }
                }
            },
        }
    } else {
        assert(blocks.take(blocks.len() as int) =~= blocks);
    }
}

/// A tree without a file that gets a page leaves the document as it was:
/// an empty directory does, and one whose files all have other extensions.
pub proof fn lemma_nothing_wanted_nothing_added(rules: Rules, nodes: Seq<Node>, blocks: Seq<Block>)
    requires
        wanted(rules, nodes) == 0,
    ensures
        scanned(rules, nodes, blocks) matches Ok(body) ==> body == blocks,
{
    lemma_one_page_for_each_wanted_file(rules, nodes, blocks);
    if let Ok(body) = scanned(rules, nodes, blocks) {
        assert(body.take(body.len() as int) =~= body);
    }
}

/// The rules that a scan goes by.
pub open spec fn rules_of(walk: WalkView) -> Rules {
    Rules { root: walk.root, extensions: walk.extensions, font_size: walk.font_size }
}

/// How a scan in state `walk` ends that is answered from `nodes`, the
/// entries that it has still to visit.
pub open spec fn run(walk: WalkView, nodes: Seq<Node>) -> Result<Seq<Block>, Failure> {
    drive(rules_of(walk), nodes, walk.blocks)
}

/// The steps of a `Walk` are those of `drive`. Let a scan have `nodes` still
/// to visit. Where its next step is the last, it ends as `run` says. Where
/// the step asks for a listing or a text, the entry that it stopped at is
/// the directory or the file asked for; an error for an answer ends the scan
/// as `run` says, and with the entries or the text for an answer the scan
/// goes on in a state from which it ends as from the one before.
pub proof fn lemma_step_of_run(step: Step, walk: WalkView, nodes: Seq<Node>)
    requires
        follows(step, walk),
        walk.todo == entries_of(nodes),
    ensures
        ({
            let passed = skip_count(walk.todo, walk.extensions) as int;
            let left = nodes.skip(passed + 1);
            match step {
                Step::Done(docx) => run(walk, nodes) == Ok::<Seq<Block>, Failure>(
                    docx_blocks(docx),
                ),
                Step::Fail(error) => error is StripPrefix && run(walk, nodes) == Err::<
                    Seq<Block>,
                    Failure,
                >(Failure::NotBelowRoot),
                Step::Report(_, next) => next@.todo == entries_of(left) && run(walk, nodes) == run(
                    next@,
                    left,
                ),
                Step::List(listing) => passed < nodes.len() && (nodes[passed] matches Node::Directory {
                    path,
                    listing: answer,
                } && listing.dir() == path && match answer {
                    Ok(children) => {
                        let next = listing.walk().with_entries(entries_of(children));
                        next.todo == entries_of(children + left) && run(walk, nodes) == run(
                            next,
                            children + left,
                        )
                    },
                    Err(error) => run(walk, nodes) == Err::<Seq<Block>, Failure>(
                        Failure::IO(error),
                    ),
                }),
                Step::Read(reading) => passed < nodes.len() && (nodes[passed] matches Node::File {
                    path,
                    text: answer,
                } && reading.file() == path && match answer {
                    Ok(text) => {
                        let next = reading.walk().with_page(reading.heading(), text);
                        next.todo == entries_of(left) && run(walk, nodes) == run(next, left)
                    },
                    Err(error) => run(walk, nodes) == Err::<Seq<Block>, Failure>(
                        Failure::IO(error),
                    ),
                }),
            }
        }),
{
    let passed = skip_count(walk.todo, walk.extensions) as int;
    let left = nodes.skip(passed + 1);
    lemma_stops_at_unskipped(walk.todo, walk.extensions);
    if passed < nodes.len() {
        assert(entries_of(nodes).skip(passed + 1) =~= entries_of(left));
        assert(walk.todo[passed] == entry_of(nodes[passed]));
        if let Node::Directory { listing: Ok(children), .. } = nodes[passed] {
            assert(entries_of(children) + entries_of(left) =~= entries_of(children + left));
        }
    }
}

} // verus!
