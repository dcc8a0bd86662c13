//! Directory trees that are copied, or mirrored by links.
use vstd::prelude::*;

use crate::paths::{join_path, quote_path};
#[allow(unused_imports)]
use crate::paths::{is_absolute, joined, quoted};
use crate::script::{append_steps, must_step, no_steps, push_step, should_step, Op, Step};
#[allow(unused_imports)]
use crate::script::{
    all_goes_well, does, lemma_nothing_stops, lemma_scripts_in_a_row, must, performed, reaction,
    script_stops, should, vital_are, CheckView, OpView, Outcome, ReactionView, StepView,
};
use crate::text::{cat2, cat4, copy_option};
#[allow(unused_imports)]
use crate::text::lemma_take_next;

verus! {

/// Why a listing broke off: a message, and the cause below it where there is one.
#[derive(Debug, PartialEq, Eq)]
pub struct Break {
    pub message: String,
    pub cause: Option<String>,
}

pub struct BreakView {
    pub message: Seq<char>,
    pub cause: Option<Seq<char>>,
}

impl DeepView for Break {
    type V = BreakView;

    open spec fn deep_view(&self) -> BreakView {
        BreakView { message: self.message@, cause: self.cause.deep_view() }
    }
}

/// What was found in a directory, in the order in which it was listed. Where the
/// listing broke off, `failure` says why.
#[derive(Debug, PartialEq, Eq)]
pub struct Listing {
    pub nodes: Vec<Node>,
    pub failure: Option<Break>,
}

/// An entry of a directory.
#[derive(Debug, PartialEq, Eq)]
pub struct Node {
    pub name: String,
    pub kind: NodeKind,
}

/// What an entry is.
#[derive(Debug, PartialEq, Eq)]
pub enum NodeKind {
    Directory(Listing),
    /// Anything else.
    File,
}

/// What is done with the files of a tree.
#[derive(Debug, Clone, Copy, PartialEq, Eq, Structural)]
pub enum TreeWork {
    /// They are copied.
    Copy,
    /// They are linked to. Directories become directories all the same.
    Link,
}

/// The step that copies a file.
pub open spec fn copy_step(from: Seq<char>, to: Seq<char>) -> StepView {
    must(
        OpView::CopyFile { from, to },
        "Failed to copy "@ + quoted(from) + " to "@ + quoted(to),
    )
}

/// The step that links to a file.
pub open spec fn symlink_step(from: Seq<char>, to: Seq<char>) -> StepView {
    must(
        OpView::Symlink { target: from, link: to },
        "Failed to symlink "@ + quoted(from) + " to "@ + quoted(to),
    )
}

/// The step for a file.
pub open spec fn file_step(work: TreeWork, from: Seq<char>, to: Seq<char>) -> StepView {
    match work {
        TreeWork::Copy => copy_step(from, to),
        TreeWork::Link => symlink_step(from, to),
    }
}

/// The steps on entering a directory. Secrets may lie below one that is copied,
/// so no one else may look into the copy.
pub open spec fn enter_steps(work: TreeWork, dest: Seq<char>) -> Seq<StepView> {
    match work {
        TreeWork::Copy => seq![
            must(OpView::CreateDir(dest), "Failed to create directory "@ + quoted(dest)),
            must(
                OpView::SetMode { path: dest, mode: 0o700 },
                "Failed to set permissions on "@ + quoted(dest),
            ),
        ],
        TreeWork::Link => seq![should(OpView::CreateDir(dest))],
    }
}

/// The step at which a listing broke off, if it did.
pub open spec fn break_steps(failure: Option<BreakView>) -> Seq<StepView> {
    match failure {
        Some(why) => seq![StepView::Halt { message: why.message, cause: why.cause }],
        None => Seq::empty(),
    }
}

/// The steps for a directory: it is entered, and each of its entries gets its
/// steps in turn.
pub open spec fn directory_steps(
    work: TreeWork,
    src: Seq<char>,
    dest: Seq<char>,
    listing: Listing,
) -> Seq<StepView>
    decreases listing, 0nat,
{
    enter_steps(work, dest) + node_steps(work, src, dest, listing.nodes@) + break_steps(
        listing.failure.deep_view(),
    )
}

/// The steps for the entries of a directory.
pub open spec fn node_steps(
    work: TreeWork,
    src: Seq<char>,
    dest: Seq<char>,
    nodes: Seq<Node>,
) -> Seq<StepView>
    decreases nodes, 0nat,
{
    if nodes.len() == 0 {
        Seq::empty()
    } else {
        node_steps(work, src, dest, nodes.drop_last()) + entry_steps(work, src, dest, nodes.last())
    }
}

/// The steps for an entry of a directory.
pub open spec fn entry_steps(
    work: TreeWork,
    src: Seq<char>,
    dest: Seq<char>,
    node: Node,
) -> Seq<StepView>
    decreases node, 0nat,
{
    let from = joined(src, node.name@);
    let to = joined(dest, node.name@);
    match node.kind {
        NodeKind::Directory(below) => directory_steps(work, from, to, below),
        NodeKind::File => seq![file_step(work, from, to)],
    }
}

/// Appends the step that copies a file.
pub fn push_copy(steps: &mut Vec<Step>, from: &str, to: &str)
    ensures
        final(steps).deep_view() == old(steps).deep_view().push(copy_step(from@, to@)),
{
    let context = cat4(
        "Failed to copy ",
        quote_path(from).as_str(),
        " to ",
        quote_path(to).as_str(),
    );
    push_step(
        steps,
        must_step(
            Op::CopyFile { from: from.to_owned(), to: to.to_owned() },
            context.as_str(),
        ),
    );
}

/// Appends the step that links to a file.
pub fn push_symlink(steps: &mut Vec<Step>, from: &str, to: &str)
    ensures
        final(steps).deep_view() == old(steps).deep_view().push(symlink_step(from@, to@)),
{
    let context = cat4(
        "Failed to symlink ",
        quote_path(from).as_str(),
        " to ",
        quote_path(to).as_str(),
    );
    push_step(
        steps,
        must_step(
            Op::Symlink { target: from.to_owned(), link: to.to_owned() },
            context.as_str(),
        ),
    );
}

fn enter(work: TreeWork, dest: &str) -> (r: Vec<Step>)
    ensures
        r.deep_view() == enter_steps(work, dest@),
{
    let mut steps = no_steps();
    match work {
        TreeWork::Copy => {
            let at = quote_path(dest);
            push_step(
                &mut steps,
                must_step(
                    Op::CreateDir(dest.to_owned()),
                    cat2("Failed to create directory ", at.as_str()).as_str(),
                ),
            );
            push_step(
                &mut steps,
                must_step(
                    Op::SetMode { path: dest.to_owned(), mode: 0o700 },
                    cat2("Failed to set permissions on ", at.as_str()).as_str(),
                ),
            );
        },
        TreeWork::Link => {
            push_step(&mut steps, should_step(Op::CreateDir(dest.to_owned())));
        },
    }
    assert(steps.deep_view() =~= enter_steps(work, dest@));
    steps
}

/// Appends the step at which a listing broke off, if it did.
pub fn push_break(steps: &mut Vec<Step>, failure: &Option<Break>)
    ensures
        final(steps).deep_view() == old(steps).deep_view() + break_steps(failure.deep_view()),
{
    let ghost before = steps.deep_view();
    match failure {
        Some(why) => {
            let cause = copy_option(&why.cause);
            push_step(steps, Step::Halt { message: why.message.clone(), cause });
        },
        None => {},
    }
    assert(steps.deep_view() =~= before + break_steps(failure.deep_view()));
}

/// Walks a directory tree.
pub fn walk_tree(work: TreeWork, src: &str, dest: &str, listing: &Listing) -> (r: Vec<Step>)
    ensures
        r.deep_view() == directory_steps(work, src@, dest@, *listing),
    decreases listing,
{
    let mut steps = enter(work, dest);
    let ghost entered = steps.deep_view();
    let ghost nodes = listing.nodes@;
    let mut i: usize = 0;
    assert(nodes.take(0) =~= Seq::empty());
    assert(steps.deep_view() =~= entered + node_steps(work, src@, dest@, nodes.take(0)));
    while i < listing.nodes.len()
        invariant
            i <= nodes.len(),
            nodes == listing.nodes@,
            steps.deep_view() == entered + node_steps(work, src@, dest@, nodes.take(i as int)),
        decreases listing.nodes.len() - i,
    {
        let node = &listing.nodes[i];
        let ghost front = node_steps(work, src@, dest@, nodes.take(i as int));
        proof {
            lemma_take_next(nodes, i as int);
        }
        let from = join_path(src, node.name.as_str());
        let to = join_path(dest, node.name.as_str());
        match &node.kind {
            NodeKind::Directory(below) => {
                assert(decreases_to!(listing => listing.nodes@[i as int]));
                let more = walk_tree(work, from.as_str(), to.as_str(), below);
                let ghost added = more.deep_view();
                append_steps(&mut steps, more);
                assert(entry_steps(work, src@, dest@, *node) == added);
                assert(steps.deep_view() =~= entered + (front + added));
            },
            NodeKind::File => {
                match work {
                    TreeWork::Copy => {
                        push_copy(&mut steps, from.as_str(), to.as_str());
                    },
                    TreeWork::Link => {
                        push_symlink(&mut steps, from.as_str(), to.as_str());
                    },
                }
                let ghost added = entry_steps(work, src@, dest@, *node);
                assert(added == seq![file_step(work, from@, to@)]);
                assert(steps.deep_view() =~= entered + (front + added));
            },
        }
        i = i + 1;
    }
    assert(nodes.take(nodes.len() as int) =~= nodes);
    push_break(&mut steps, &listing.failure);
    steps
}

/// The steps that copy a directory with all that lies below it.
pub open spec fn copy_of_tree(src: Seq<char>, dest: Seq<char>, listing: Listing) -> Seq<StepView> {
    directory_steps(TreeWork::Copy, src, dest, listing)
}

/// The steps that mirror a directory by links.
pub open spec fn mirror_of_tree(
    src: Seq<char>,
    dest: Seq<char>,
    listing: Listing,
) -> Seq<StepView> {
    directory_steps(TreeWork::Link, src, dest, listing)
}

/// Copies a directory with all that lies below it.
pub fn copy_dir_recursive(src: &str, dest: &str, listing: &Listing) -> (r: Vec<Step>)
    ensures
        r.deep_view() == copy_of_tree(src@, dest@, *listing),
{
    walk_tree(TreeWork::Copy, src, dest, listing)
}

/// Mirrors a directory by links.
pub fn symlink_dir_recurse(src: &str, dest: &str, listing: &Listing) -> (r: Vec<Step>)
    ensures
        r.deep_view() == mirror_of_tree(src@, dest@, *listing),
{
    walk_tree(TreeWork::Link, src, dest, listing)
}

// ---------------------------------------------------------------------------
// Reading directories
// ---------------------------------------------------------------------------
/// A listing breaks off with the error as it came.
pub fn broken_off(error: &str) -> (r: Break)
    ensures
        r.deep_view() == (BreakView { message: error@, cause: None }),
{
    Break { message: error.to_owned(), cause: None }
}

/// Why there is no listing of a directory of a tree. For a copy the directory is
/// named.
pub open spec fn unlisted(work: TreeWork, dir: Seq<char>, error: Seq<char>) -> BreakView {
    match work {
        TreeWork::Copy => BreakView {
            message: "Failed to read directory "@ + quoted(dir),
            cause: Some(error),
        },
        TreeWork::Link => BreakView { message: error, cause: None },
    }
}

/// Why there is no listing of a directory of a tree.
pub fn unreadable(work: TreeWork, dir: &str, error: &str) -> (r: Break)
    ensures
        r.deep_view() == unlisted(work, dir@, error@),
{
    match work {
        TreeWork::Copy => Break {
            message: cat2("Failed to read directory ", quote_path(dir).as_str()),
            cause: Some(error.to_owned()),
        },
        TreeWork::Link => broken_off(error),
    }
}

/// Whether an entry counts as a directory, given what is listed and what is found.
pub open spec fn taken_for_directory(
    work: TreeWork,
    listed: Option<bool>,
    found: bool,
) -> Option<bool> {
    match work {
        TreeWork::Copy => listed,
        TreeWork::Link => Some(found),
    }
}

/// Whether an entry counts as a directory: for a copy where the directory that
/// holds it says so, if it can tell; for a mirror where one is found at its path,
/// symbolic links followed. Where it cannot be told, the listing breaks off.
pub fn counts_as_directory(work: TreeWork, listed: Option<bool>, found: bool) -> (r: Option<bool>)
    ensures
        r == taken_for_directory(work, listed, found),
{
    match work {
        TreeWork::Copy => listed,
        TreeWork::Link => Some(found),
    }
}

/// The steps that copy files of a directory to another.
pub open spec fn entry_copies(
    from: Seq<char>,
    to: Seq<char>,
    names: Seq<Seq<char>>,
) -> Seq<StepView> {
    names.map_values(
        |name: Seq<char>|
            should(OpView::CopyFile { from: joined(from, name), to: joined(to, name) }),
    )
}

/// The steps that copy the files of a directory that were listed to another, up to
/// where the listing broke off.
pub open spec fn listed_copies(
    from: Seq<char>,
    to: Seq<char>,
    names: Seq<Seq<char>>,
    failure: Option<BreakView>,
) -> Seq<StepView> {
    entry_copies(from, to, names) + break_steps(failure)
}

/// Copies the files of a directory to another, one by one.
pub fn copy_entries(
    from: &str,
    to: &str,
    names: &Vec<String>,
    failure: &Option<Break>,
) -> (r: Vec<Step>)
    ensures
        r.deep_view() == listed_copies(from@, to@, names.deep_view(), failure.deep_view()),
{
    let mut steps = no_steps();
    let mut i: usize = 0;
    assert(steps.deep_view() =~= entry_copies(from@, to@, names.deep_view().take(0)));
    while i < names.len()
        invariant
            i <= names@.len(),
            steps.deep_view() == entry_copies(from@, to@, names.deep_view().take(i as int)),
        decreases names.len() - i,
    {
        let name = names[i].as_str();
        let op = Op::CopyFile { from: join_path(from, name), to: join_path(to, name) };
        push_step(&mut steps, should_step(op));
        assert(steps.deep_view() =~= entry_copies(from@, to@, names.deep_view().take(i + 1)));
        i = i + 1;
    }
    assert(names.deep_view().take(names@.len() as int) =~= names.deep_view());
    push_break(&mut steps, failure);
    steps
}

// ---------------------------------------------------------------------------
// Laws
// ---------------------------------------------------------------------------
/// Whether names lead from a directory down to a file.
pub open spec fn leads_to_file(listing: Listing, names: Seq<Seq<char>>) -> bool
    decreases names.len(),
{
    names.len() > 0 && exists|i: int|
        0 <= i < listing.nodes@.len() && #[trigger] listing.nodes@[i].name@ == names[0]
            && match listing.nodes@[i].kind {
            NodeKind::Directory(below) => leads_to_file(below, names.skip(1)),
            NodeKind::File => names.len() == 1,
        }
}

/// The path that names lead to from a directory.
pub open spec fn under(base: Seq<char>, names: Seq<Seq<char>>) -> Seq<char>
    decreases names.len(),
{
    if names.len() == 0 {
        base
    } else {
        under(joined(base, names[0]), names.skip(1))
    }
}

/// Whether every name of a tree is that of an entry: none begins with a slash.
pub open spec fn plain_names(listing: Listing) -> bool
    decreases listing,
{
    forall|i: int|
        0 <= i < listing.nodes@.len() ==> !is_absolute((#[trigger] listing.nodes@[i]).name@)
            && match listing.nodes@[i].kind {
            NodeKind::Directory(below) => plain_names(below),
            NodeKind::File => true,
        }
}

/// The path that a step of a walk writes to.
pub open spec fn written(step: StepView) -> Option<Seq<char>> {
    match step {
        StepView::Do { op: OpView::CreateDir(path), .. } => Some(path),
        StepView::Do { op: OpView::SetMode { path, .. }, .. } => Some(path),
        StepView::Do { op: OpView::CopyFile { to, .. }, .. } => Some(to),
        StepView::Do { op: OpView::Symlink { link, .. }, .. } => Some(link),
        _ => None,
    }
}

/// Whether a step writes to a path that begins with `dest`, or is where a listing
/// broke off.
pub open spec fn writes_under(step: StepView, dest: Seq<char>) -> bool {
    match written(step) {
        Some(path) => dest.is_prefix_of(path),
        None => step is Halt,
    }
}

/// Every file of a tree is taken over, at the place that corresponds to its own.
pub proof fn lemma_every_file_is_taken(
    work: TreeWork,
    src: Seq<char>,
    dest: Seq<char>,
    listing: Listing,
    names: Seq<Seq<char>>,
)
    requires
        leads_to_file(listing, names),
    ensures
        directory_steps(work, src, dest, listing).contains(
            file_step(work, under(src, names), under(dest, names)),
        ),
    decreases names.len(),
{
    let i = choose|i: int|
        0 <= i < listing.nodes@.len() && #[trigger] listing.nodes@[i].name@ == names[0]
            && match listing.nodes@[i].kind {
            NodeKind::Directory(below) => leads_to_file(below, names.skip(1)),
            NodeKind::File => names.len() == 1,
        };
    let node = listing.nodes@[i];
    let from = joined(src, names[0]);
    let to = joined(dest, names[0]);
    let step = file_step(work, under(src, names), under(dest, names));
    match node.kind {
        NodeKind::Directory(below) => {
            lemma_every_file_is_taken(work, from, to, below, names.skip(1));
        },
        NodeKind::File => {
            assert(under(from, names.skip(1)) == from);
            assert(under(to, names.skip(1)) == to);
            assert(entry_steps(work, src, dest, node)[0] == step);
        },
    }
    lemma_entry_among_nodes(work, src, dest, listing.nodes@, i, step);
    let entered = enter_steps(work, dest);
    let inner = node_steps(work, src, dest, listing.nodes@);
    let k = choose|k: int| 0 <= k < inner.len() && inner[k] == step;
    assert(directory_steps(work, src, dest, listing)[entered.len() + k] == step);
}

proof fn lemma_entry_among_nodes(
    work: TreeWork,
    src: Seq<char>,
    dest: Seq<char>,
    nodes: Seq<Node>,
    i: int,
    step: StepView,
)
    requires
        0 <= i < nodes.len(),
        entry_steps(work, src, dest, nodes[i]).contains(step),
    ensures
        node_steps(work, src, dest, nodes).contains(step),
    decreases nodes.len(),
{
    let front = node_steps(work, src, dest, nodes.drop_last());
    let last = entry_steps(work, src, dest, nodes.last());
    if i == nodes.len() - 1 {
        let k = choose|k: int| 0 <= k < last.len() && last[k] == step;
        assert((front + last)[front.len() + k] == step);
    } else {
        lemma_entry_among_nodes(work, src, dest, nodes.drop_last(), i, step);
        let k = choose|k: int| 0 <= k < front.len() && front[k] == step;
        assert((front + last)[k] == step);
    }
}

/// A walk writes nowhere but under the directory that it was given: whatever it
/// creates has that directory at the beginning of its path.
pub proof fn lemma_writes_under_dest(
    work: TreeWork,
    src: Seq<char>,
    dest: Seq<char>,
    listing: Listing,
)
    requires
        plain_names(listing),
    ensures
        forall|i: int|
            0 <= i < directory_steps(work, src, dest, listing).len() ==> writes_under(
                #[trigger] directory_steps(work, src, dest, listing)[i],
                dest,
            ),
    decreases listing, 1nat, 0nat,
{
    let nodes = listing.nodes@;
    lemma_nodes_write_under(work, src, dest, listing, nodes.len() as int);
    assert(nodes.take(nodes.len() as int) =~= nodes);
    let entered = enter_steps(work, dest);
    let inner = node_steps(work, src, dest, nodes);
    let all = directory_steps(work, src, dest, listing);
    assert forall|i: int| 0 <= i < all.len() implies writes_under(#[trigger] all[i], dest) by {
        if i < entered.len() {
            assert(all[i] == entered[i]);
        } else if i < entered.len() + inner.len() {
            assert(all[i] == inner[i - entered.len()]);
        } else {
            assert(all[i] == break_steps(listing.failure.deep_view())[i - entered.len()
                - inner.len()]);
        }
    }
}

proof fn lemma_nodes_write_under(
    work: TreeWork,
    src: Seq<char>,
    dest: Seq<char>,
    listing: Listing,
    n: int,
)
    requires
        plain_names(listing),
        0 <= n <= listing.nodes@.len(),
    ensures
        forall|i: int|
            0 <= i < node_steps(work, src, dest, listing.nodes@.take(n)).len() ==> writes_under(
                #[trigger] node_steps(work, src, dest, listing.nodes@.take(n))[i],
                dest,
            ),
    decreases listing, 0nat, n,
{
    if n > 0 {
        let nodes = listing.nodes@.take(n);
        lemma_take_next(listing.nodes@, n - 1);
        lemma_nodes_write_under(work, src, dest, listing, n - 1);
        let node = listing.nodes@[n - 1];
        let from = joined(src, node.name@);
        let to = joined(dest, node.name@);
        assert(dest.is_prefix_of(to));
        let front = node_steps(work, src, dest, nodes.drop_last());
        let last = entry_steps(work, src, dest, node);
        match node.kind {
            NodeKind::Directory(below) => {
                assert(decreases_to!(listing => listing.nodes@[n - 1]));
                lemma_writes_under_dest(work, from, to, below);
                assert(last == directory_steps(work, from, to, below));
            },
            NodeKind::File => {
                assert(last == seq![file_step(work, from, to)]);
            },
        }
        assert forall|i: int| 0 <= i < (front + last).len() implies writes_under(
            #[trigger] (front + last)[i],
            dest,
        ) by {
            if i < front.len() {
                assert((front + last)[i] == front[i]);
            } else {
                assert((front + last)[i] == last[i - front.len()]);
                assert(writes_under(last[i - front.len()], to));
            }
        }
    }
}

/// Each file of a directory is copied to the other directory under its own name.
pub proof fn lemma_each_entry_is_copied(
    from: Seq<char>,
    to: Seq<char>,
    names: Seq<Seq<char>>,
    name: Seq<char>,
    holds: spec_fn(CheckView) -> bool,
    outcome: spec_fn(OpView) -> Outcome,
)
    requires
        all_goes_well(outcome),
        names.contains(name),
    ensures
        performed(entry_copies(from, to, names), 0, holds, outcome).contains(
            OpView::CopyFile { from: joined(from, name), to: joined(to, name) },
        ),
{
    let i = choose|i: int| 0 <= i < names.len() && names[i] == name;
    lemma_entry_copies(from, to, names, 0, holds, outcome);
    let ops = performed(entry_copies(from, to, names), 0, holds, outcome);
    assert(ops[i] == (OpView::CopyFile { from: joined(from, names[i]), to: joined(to, names[i]) }));
}

proof fn lemma_entry_copies(
    from: Seq<char>,
    to: Seq<char>,
    names: Seq<Seq<char>>,
    at: int,
    holds: spec_fn(CheckView) -> bool,
    outcome: spec_fn(OpView) -> Outcome,
)
    requires
        all_goes_well(outcome),
        0 <= at <= names.len(),
    ensures
        performed(entry_copies(from, to, names), at, holds, outcome) == Seq::new(
            (names.len() - at) as nat,
            |k: int|
                OpView::CopyFile {
                    from: joined(from, names[at + k]),
                    to: joined(to, names[at + k]),
                },
        ),
    decreases names.len() - at,
{
    let steps = entry_copies(from, to, names);
    let copies = Seq::new(
        (names.len() - at) as nat,
        |k: int|
            OpView::CopyFile {
                from: joined(from, names[at + k]),
                to: joined(to, names[at + k]),
            },
    );
    if at < names.len() {
        lemma_entry_copies(from, to, names, at + 1, holds, outcome);
        let copy = OpView::CopyFile { from: joined(from, names[at]), to: joined(to, names[at]) };
        assert(steps[at] == should(copy));
        assert(performed(steps, at, holds, outcome) =~= copies);
    } else {
        assert(performed(steps, at, holds, outcome) =~= copies);
    }
}

/// What is done with a file of a tree, and with a directory: a copy is made of a
/// file, and no one else may look into the copy of a directory; a link leads back to
/// the file, and a directory is one of its own.
pub proof fn lemma_files_and_directories(
    from: Seq<char>,
    to: Seq<char>,
    holds: spec_fn(CheckView) -> bool,
    outcome: spec_fn(OpView) -> Outcome,
)
    requires
        all_goes_well(outcome),
    ensures
        does(file_step(TreeWork::Copy, from, to), OpView::CopyFile { from, to }),
        does(file_step(TreeWork::Link, from, to), OpView::Symlink { target: from, link: to }),
        performed(enter_steps(TreeWork::Copy, to), 0, holds, outcome) == seq![
            OpView::CreateDir(to),
            OpView::SetMode { path: to, mode: 0o700 },
        ],
        performed(enter_steps(TreeWork::Link, to), 0, holds, outcome) == seq![
            OpView::CreateDir(to),
        ],
{
    let a = enter_steps(TreeWork::Copy, to);
    let b = enter_steps(TreeWork::Link, to);
    assert(performed(a, 2, holds, outcome) == Seq::<OpView>::empty());
    assert(performed(a, 1, holds, outcome) =~= seq![OpView::SetMode { path: to, mode: 0o700 }]);
    assert(performed(a, 0, holds, outcome) =~= seq![
        OpView::CreateDir(to),
        OpView::SetMode { path: to, mode: 0o700 },
    ]);
    assert(performed(b, 1, holds, outcome) == Seq::<OpView>::empty());
    assert(performed(b, 0, holds, outcome) =~= seq![OpView::CreateDir(to)]);
}

/// A listing that broke off is an error, whatever was taken over before it; one
/// that is complete is none.
pub proof fn lemma_broken_listing_fails(
    from: Seq<char>,
    to: Seq<char>,
    names: Seq<Seq<char>>,
    why: BreakView,
    holds: spec_fn(CheckView) -> bool,
    outcome: spec_fn(OpView) -> Outcome,
)
    requires
        all_goes_well(outcome),
    ensures
        ({
            let copies = performed(entry_copies(from, to, names), 0, holds, outcome);
            let whole = listed_copies(from, to, names, None);
            let broken = listed_copies(from, to, names, Some(why));
            &&& copies.len() == names.len()
            &&& performed(whole, 0, holds, outcome) == copies
            &&& performed(broken, 0, holds, outcome) == copies
            &&& !script_stops(whole, 0, holds, outcome)
            &&& script_stops(broken, 0, holds, outcome)
        }),
{
    let steps = entry_copies(from, to, names);
    lemma_entry_copies(from, to, names, 0, holds, outcome);
    assert forall|i: int| 0 <= i < steps.len() implies (#[trigger] steps[i]) is Do && !reaction(
        steps[i],
        outcome(steps[i]->Do_op),
    ).stops() by {
        let copy = OpView::CopyFile { from: joined(from, names[i]), to: joined(to, names[i]) };
        assert(steps[i] == should(copy));
        assert(outcome(copy) == Outcome::Done);
    }
    lemma_nothing_stops(steps, 0, holds, outcome);
    assert(listed_copies(from, to, names, None) =~= steps);
    let end = break_steps(Some(why));
    lemma_scripts_in_a_row(steps, end, 0, holds, outcome);
    assert(performed(end, 0, holds, outcome) == Seq::<OpView>::empty());
    assert(script_stops(end, 0, holds, outcome));
    let copies = performed(steps, 0, holds, outcome);
    assert(copies + Seq::<OpView>::empty() =~= copies);
}

/// For a copy a directory is what its own directory says; a link to a directory is
/// then copied as a file. For a mirror a directory is what is found at the path.
pub proof fn lemma_what_counts_as_directory(listed: bool, found: bool)
    ensures
        taken_for_directory(TreeWork::Copy, Some(listed), found) == Some(listed),
        taken_for_directory(TreeWork::Copy, None, found) is None,
        taken_for_directory(TreeWork::Link, Some(listed), found) == Some(found),
        taken_for_directory(TreeWork::Link, None, found) == Some(found),
{
}

/// Nothing of a tree can be left out: whatever cannot be taken over is an error.
pub proof fn lemma_vital_tree(from: Seq<char>, to: Seq<char>, names: Seq<Seq<char>>, work: TreeWork)
    ensures
        reaction(file_step(work, from, to), Outcome::Failed).fails(),
        vital_are(enter_steps(work, to), |op: OpView| true),
        vital_are(entry_copies(from, to, names), |op: OpView| true),
{
}

/// A copy of a tree holds a copy of each of its files, and a mirror a link to each
/// of them, at the corresponding places.
pub proof fn lemma_copies_and_mirrors(
    src: Seq<char>,
    dest: Seq<char>,
    listing: Listing,
    names: Seq<Seq<char>>,
)
    requires
        leads_to_file(listing, names),
    ensures
        exists|i: int|
            0 <= i < copy_of_tree(src, dest, listing).len() && does(
                #[trigger] copy_of_tree(src, dest, listing)[i],
                OpView::CopyFile { from: under(src, names), to: under(dest, names) },
            ),
        exists|i: int|
            0 <= i < mirror_of_tree(src, dest, listing).len() && does(
                #[trigger] mirror_of_tree(src, dest, listing)[i],
                OpView::Symlink { target: under(src, names), link: under(dest, names) },
            ),
{
    lemma_every_file_is_taken(TreeWork::Copy, src, dest, listing, names);
    lemma_every_file_is_taken(TreeWork::Link, src, dest, listing, names);
    let from = under(src, names);
    let to = under(dest, names);
    let a = copy_of_tree(src, dest, listing);
    let b = mirror_of_tree(src, dest, listing);
    let i = choose|i: int| 0 <= i < a.len() && a[i] == file_step(TreeWork::Copy, from, to);
    let j = choose|j: int| 0 <= j < b.len() && b[j] == file_step(TreeWork::Link, from, to);
    assert(does(a[i], OpView::CopyFile { from, to }));
    assert(does(b[j], OpView::Symlink { target: from, link: to }));
}

/// The error of a file or a directory names it.
pub proof fn lemma_errors_of_trees(from: Seq<char>, to: Seq<char>, error: Seq<char>)
    ensures
        reaction(file_step(TreeWork::Copy, from, to), Outcome::Failed) == ReactionView::Abort(
            "Failed to copy "@ + quoted(from) + " to "@ + quoted(to),
        ),
        reaction(file_step(TreeWork::Link, from, to), Outcome::Failed) == ReactionView::Abort(
            "Failed to symlink "@ + quoted(from) + " to "@ + quoted(to),
        ),
        reaction(enter_steps(TreeWork::Copy, to)[0], Outcome::Failed) == ReactionView::Abort(
            "Failed to create directory "@ + quoted(to),
        ),
        reaction(enter_steps(TreeWork::Copy, to)[1], Outcome::Failed) == ReactionView::Abort(
            "Failed to set permissions on "@ + quoted(to),
        ),
        unlisted(TreeWork::Copy, from, error) == (BreakView {
            message: "Failed to read directory "@ + quoted(from),
            cause: Some(error),
        }),
        unlisted(TreeWork::Link, from, error) == (BreakView { message: error, cause: None }),
        break_steps(Some(unlisted(TreeWork::Link, from, error))) == seq![
            StepView::Halt { message: error, cause: None },
        ],
{
}

} // verus!
