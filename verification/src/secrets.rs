//! Secrets: those of the extra utilities are linked, those of the initrd copied,
//! to where programs look for them.
use vstd::prelude::*;

use crate::paths::join_path;
#[allow(unused_imports)]
use crate::paths::{is_absolute, is_blank, joined, lemma_joined, lemma_parent};
use crate::script::{
    append_steps, if_holds_step, log_step, no_steps, push_step, should_step, Check, Op, Step,
};
#[allow(unused_imports)]
use crate::script::{
    all_goes_well, does, exits_are_fine, if_holds, log, performed, should, vital_are, CheckView,
    OpView, Outcome, StepView,
};
use crate::setup::push_above;
#[allow(unused_imports)]
use crate::setup::above_steps;
#[allow(unused_imports)]
use crate::text::{is_char, lemma_split_plain, lemma_take_next};
use crate::trees::{push_break, push_copy, push_symlink, walk_tree, Listing, NodeKind, TreeWork};
#[allow(unused_imports)]
use crate::trees::{
    break_steps, copy_step, directory_steps, file_step, leads_to_file, lemma_every_file_is_taken,
    symlink_step, under, Node,
};

verus! {

/// Where a secret is looked for: under its name in the root directory.
pub open spec fn secret_dest(name: Seq<char>) -> Seq<char> {
    joined("/"@, name)
}

/// The steps for a secret that is a file. No one else may read a copy.
pub open spec fn secret_file_steps(
    work: TreeWork,
    from: Seq<char>,
    to: Seq<char>,
) -> Seq<StepView> {
    match work {
        TreeWork::Copy => seq![
            copy_step(from, to),
            should(OpView::SetMode { path: to, mode: 0o600 }),
        ],
        TreeWork::Link => seq![symlink_step(from, to)],
    }
}

/// The steps for an entry of a directory of secrets. A directory is taken over
/// with all that lies below it.
pub open spec fn secret_steps(work: TreeWork, dir: Seq<char>, node: Node) -> Seq<StepView> {
    let from = joined(dir, node.name@);
    let to = secret_dest(node.name@);
    above_steps(to) + match node.kind {
        NodeKind::Directory(below) => directory_steps(work, from, to, below),
        NodeKind::File => secret_file_steps(work, from, to),
    }
}

/// The steps for the entries of a directory of secrets.
pub open spec fn secrets_steps(work: TreeWork, dir: Seq<char>, nodes: Seq<Node>) -> Seq<StepView>
    decreases nodes.len(),
{
    if nodes.len() == 0 {
        Seq::empty()
    } else {
        secrets_steps(work, dir, nodes.drop_last()) + secret_steps(work, dir, nodes.last())
    }
}

/// The steps that link the secrets of the extra utilities, where there are any.
pub open spec fn link_secrets_steps(extra_utils: Option<Seq<char>>) -> Seq<StepView> {
    match extra_utils {
        Some(utils) => {
            let dir = joined(utils, "secrets"@);
            seq![
                if_holds(CheckView::IsDirectory(dir), 2),
                log("Linking extraUtils secrets..."@),
                should(OpView::LinkSecrets { from: dir }),
            ]
        },
        None => Seq::empty(),
    }
}

/// Links the secrets of the extra utilities.
pub fn link_extra_utils_secrets(extra_utils: &Option<String>) -> (r: Vec<Step>)
    ensures
        r.deep_view() == link_secrets_steps(extra_utils.deep_view()),
{
    let mut steps = no_steps();
    match extra_utils {
        Some(utils) => {
            let dir = join_path(utils.as_str(), "secrets");
            push_step(&mut steps, if_holds_step(Check::IsDirectory(dir.clone()), 2));
            push_step(&mut steps, log_step("Linking extraUtils secrets..."));
            push_step(&mut steps, should_step(Op::LinkSecrets { from: dir }));
        },
        None => {},
    }
    assert(steps.deep_view() =~= link_secrets_steps(extra_utils.deep_view()));
    steps
}

/// The steps that copy the secrets of the initrd, where there are any.
pub open spec fn copy_secrets_steps() -> Seq<StepView> {
    seq![
        if_holds(CheckView::IsDirectory("/.initrd-secrets"@), 2),
        log("Copying /.initrd-secrets..."@),
        should(OpView::CopySecrets { from: "/.initrd-secrets"@ }),
    ]
}

/// Copies the secrets of the initrd.
pub fn copy_initrd_secrets() -> (r: Vec<Step>)
    ensures
        r.deep_view() == copy_secrets_steps(),
{
    let mut steps = no_steps();
    push_step(&mut steps, if_holds_step(Check::IsDirectory("/.initrd-secrets".to_owned()), 2));
    push_step(&mut steps, log_step("Copying /.initrd-secrets..."));
    push_step(&mut steps, should_step(Op::CopySecrets { from: "/.initrd-secrets".to_owned() }));
    assert(steps.deep_view() =~= copy_secrets_steps());
    steps
}

/// The steps for what a directory of secrets was found to hold, up to where its
/// listing broke off.
pub open spec fn taken_over(work: TreeWork, dir: Seq<char>, listing: Listing) -> Seq<StepView> {
    secrets_steps(work, dir, listing.nodes@) + break_steps(listing.failure.deep_view())
}

/// Takes over what a directory of secrets was found to hold.
pub fn take_over_secrets(work: TreeWork, dir: &str, listing: &Listing) -> (r: Vec<Step>)
    ensures
        r.deep_view() == taken_over(work, dir@, *listing),
{
    let mut steps = no_steps();
    let ghost nodes = listing.nodes@;
    let mut i: usize = 0;
    assert(nodes.take(0) =~= Seq::empty());
    assert(steps.deep_view() =~= secrets_steps(work, dir@, nodes.take(0)));
    while i < listing.nodes.len()
        invariant
            i <= nodes.len(),
            nodes == listing.nodes@,
            steps.deep_view() == secrets_steps(work, dir@, nodes.take(i as int)),
        decreases listing.nodes.len() - i,
    {
        let node = &listing.nodes[i];
        let ghost front = steps.deep_view();
        proof {
            lemma_take_next(nodes, i as int);
        }
        let from = join_path(dir, node.name.as_str());
        let to = join_path("/", node.name.as_str());
        push_above(&mut steps, to.as_str());
        match &node.kind {
            NodeKind::Directory(below) => {
                let more = walk_tree(work, from.as_str(), to.as_str(), below);
                append_steps(&mut steps, more);
            },
            NodeKind::File => match work {
                TreeWork::Copy => {
                    push_copy(&mut steps, from.as_str(), to.as_str());
                    push_step(&mut steps, should_step(Op::SetMode { path: to, mode: 0o600 }));
                },
                TreeWork::Link => {
                    push_symlink(&mut steps, from.as_str(), to.as_str());
                },
            },
        }
        assert(steps.deep_view() =~= front + secret_steps(work, dir@, *node));
        i = i + 1;
    }
    assert(nodes.take(nodes.len() as int) =~= nodes);
    push_break(&mut steps, &listing.failure);
    steps
}

// ---------------------------------------------------------------------------
// Laws
// ---------------------------------------------------------------------------
/// A secret that is a file reaches the root directory under its own name: as a copy
/// that no one else may read, or as a link.
pub proof fn lemma_secret_file(
    dir: Seq<char>,
    node: Node,
    holds: spec_fn(CheckView) -> bool,
    outcome: spec_fn(OpView) -> Outcome,
)
    requires
        node.kind is File,
        !node.name@.contains('/'),
        !is_blank(node.name@),
        all_goes_well(outcome),
    ensures
        performed(secret_steps(TreeWork::Copy, dir, node), 0, holds, outcome) == seq![
            OpView::CreateDir(seq!['/']),
            OpView::CopyFile { from: joined(dir, node.name@), to: seq!['/'] + node.name@ },
            OpView::SetMode { path: seq!['/'] + node.name@, mode: 0o600 },
        ],
        performed(secret_steps(TreeWork::Link, dir, node), 0, holds, outcome) == seq![
            OpView::CreateDir(seq!['/']),
            OpView::Symlink { target: joined(dir, node.name@), link: seq!['/'] + node.name@ },
        ],
{
    reveal_strlit("/");
    assert("/"@ =~= seq!['/']);
    lemma_joined("/"@, node.name@);
    assert forall|i: int| 0 <= i < node.name@.len() implies !is_char('/')(
        #[trigger] node.name@[i],
    ) by {
        assert(node.name@.contains(node.name@[i]));
    }
    lemma_split_plain(node.name@, is_char('/'));
    lemma_parent(node.name@, node.name@);
    let to = seq!['/'] + node.name@;
    let from = joined(dir, node.name@);
    let a = secret_steps(TreeWork::Copy, dir, node);
    let b = secret_steps(TreeWork::Link, dir, node);
    assert(a.len() == 3);
    assert(b.len() == 2);
    let ops = seq![
        OpView::CreateDir(seq!['/']),
        OpView::CopyFile { from, to },
        OpView::SetMode { path: to, mode: 0o600 },
    ];
    assert(does(a[0], ops[0]) && does(a[1], ops[1]) && does(a[2], ops[2]));
    assert(performed(a, 3, holds, outcome) =~= ops.skip(3));
    assert(performed(a, 2, holds, outcome) =~= ops.skip(2));
    assert(performed(a, 1, holds, outcome) =~= ops.skip(1));
    assert(performed(a, 0, holds, outcome) =~= ops);
    let link = OpView::Symlink { target: from, link: to };
    assert(does(b[0], ops[0]) && does(b[1], link));
    assert(performed(b, 2, holds, outcome) == Seq::<OpView>::empty());
    assert(performed(b, 1, holds, outcome) =~= seq![link]);
    assert(performed(b, 0, holds, outcome) =~= seq![ops[0], link]);
}

/// The secrets of the extra utilities are linked from below them, those of the
/// initrd copied from their own directory; without such a directory nothing is
/// done.
pub proof fn lemma_where_secrets_come_from(
    utils: Seq<char>,
    holds: spec_fn(CheckView) -> bool,
    outcome: spec_fn(OpView) -> Outcome,
)
    requires
        utils.len() > 0 && utils.last() != '/',
        all_goes_well(outcome),
    ensures
        ({
            let dir = utils + "/secrets"@;
            &&& performed(link_secrets_steps(Some(utils)), 0, holds, outcome) == if holds(
                CheckView::IsDirectory(dir),
            ) {
                seq![
                    OpView::Log("Linking extraUtils secrets..."@),
                    OpView::LinkSecrets { from: dir },
                ]
            } else {
                Seq::empty()
            }
            &&& performed(link_secrets_steps(None), 0, holds, outcome) == Seq::<OpView>::empty()
            &&& performed(copy_secrets_steps(), 0, holds, outcome) == if holds(
                CheckView::IsDirectory("/.initrd-secrets"@),
            ) {
                seq![
                    OpView::Log("Copying /.initrd-secrets..."@),
                    OpView::CopySecrets { from: "/.initrd-secrets"@ },
                ]
            } else {
                Seq::empty()
            }
        }),
{
    reveal_strlit("secrets");
    reveal_strlit("/secrets");
    lemma_joined(utils, "secrets"@);
    let dir = utils + "/secrets"@;
    assert(joined(utils, "secrets"@) =~= dir);
    let a = link_secrets_steps(Some(utils));
    let b = copy_secrets_steps();
    assert(performed(a, 3, holds, outcome) == Seq::<OpView>::empty());
    assert(performed(b, 3, holds, outcome) == Seq::<OpView>::empty());
    assert(performed(a, 2, holds, outcome) =~= seq![OpView::LinkSecrets { from: dir }]);
    assert(performed(b, 2, holds, outcome) =~= seq![
        OpView::CopySecrets { from: "/.initrd-secrets"@ },
    ]);
    assert(performed(a, 1, holds, outcome) =~= seq![
        OpView::Log("Linking extraUtils secrets..."@),
        OpView::LinkSecrets { from: dir },
    ]);
    assert(performed(b, 1, holds, outcome) =~= seq![
        OpView::Log("Copying /.initrd-secrets..."@),
        OpView::CopySecrets { from: "/.initrd-secrets"@ },
    ]);
}

/// No secret of a directory is left out: the steps for each one are among the
/// steps for all.
pub proof fn lemma_each_secret_is_taken_over(
    work: TreeWork,
    dir: Seq<char>,
    nodes: Seq<Node>,
    i: int,
    k: int,
)
    requires
        0 <= i < nodes.len(),
        0 <= k < secret_steps(work, dir, nodes[i]).len(),
    ensures
        secrets_steps(work, dir, nodes).contains(secret_steps(work, dir, nodes[i])[k]),
    decreases nodes.len(),
{
    let step = secret_steps(work, dir, nodes[i])[k];
    let front = secrets_steps(work, dir, nodes.drop_last());
    let all = secrets_steps(work, dir, nodes);
    if i < nodes.len() - 1 {
        assert(nodes.drop_last()[i] == nodes[i]);
        lemma_each_secret_is_taken_over(work, dir, nodes.drop_last(), i, k);
        let j = choose|j: int| 0 <= j < front.len() && front[j] == step;
        assert(all[j] == step);
    } else {
        assert(all[front.len() + k] == step);
    }
}

/// Secrets that cannot be taken over are an error.
pub proof fn lemma_vital_secrets(utils: Seq<char>)
    ensures
        vital_are(
            link_secrets_steps(Some(utils)) + copy_secrets_steps(),
            |op: OpView| !(op is Log),
        ),
        exits_are_fine(link_secrets_steps(Some(utils)) + copy_secrets_steps()),
{
    let steps = link_secrets_steps(Some(utils)) + copy_secrets_steps();
    assert(steps.len() == 6);
}

/// Every step for every secret of a directory is taken, and a listing that broke off
/// is an error.
pub proof fn lemma_directory_of_secrets(
    work: TreeWork,
    dir: Seq<char>,
    listing: Listing,
    i: int,
    k: int,
)
    requires
        0 <= i < listing.nodes@.len(),
        0 <= k < secret_steps(work, dir, listing.nodes@[i]).len(),
    ensures
        taken_over(work, dir, listing).contains(secret_steps(work, dir, listing.nodes@[i])[k]),
        listing.failure is Some ==> taken_over(work, dir, listing).last() is Halt,
        listing.failure is None ==> taken_over(work, dir, listing) == secrets_steps(
            work,
            dir,
            listing.nodes@,
        ),
{
    lemma_each_secret_is_taken_over(work, dir, listing.nodes@, i, k);
    let step = secret_steps(work, dir, listing.nodes@[i])[k];
    let front = secrets_steps(work, dir, listing.nodes@);
    let j = choose|j: int| 0 <= j < front.len() && front[j] == step;
    assert(taken_over(work, dir, listing)[j] == step);
    if listing.failure is None {
        assert(taken_over(work, dir, listing) =~= front);
    }
}

/// A secret that is a directory is taken over with all that lies below it: each file
/// of it is copied, or linked to, at the corresponding place below the root
/// directory.
pub proof fn lemma_secret_directory(
    dir: Seq<char>,
    node: Node,
    below: Listing,
    names: Seq<Seq<char>>,
)
    requires
        node.kind == NodeKind::Directory(below),
        leads_to_file(below, names),
        !is_absolute(node.name@),
    ensures
        ({
            let from = under(joined(dir, node.name@), names);
            let to = under(seq!['/'] + node.name@, names);
            let copy = secret_steps(TreeWork::Copy, dir, node);
            let link = secret_steps(TreeWork::Link, dir, node);
            &&& exists|i: int|
                0 <= i < copy.len() && does(#[trigger] copy[i], OpView::CopyFile { from, to })
            &&& exists|i: int|
                0 <= i < link.len() && does(
                    #[trigger] link[i],
                    OpView::Symlink { target: from, link: to },
                )
        }),
{
    reveal_strlit("/");
    assert("/"@ =~= seq!['/']);
    lemma_joined("/"@, node.name@);
    let src = joined(dir, node.name@);
    let dest = secret_dest(node.name@);
    assert(dest == seq!['/'] + node.name@);
    lemma_every_file_is_taken(TreeWork::Copy, src, dest, below, names);
    lemma_every_file_is_taken(TreeWork::Link, src, dest, below, names);
    let from = under(src, names);
    let to = under(dest, names);
    let n = above_steps(dest).len() as int;
    let a = directory_steps(TreeWork::Copy, src, dest, below);
    let b = directory_steps(TreeWork::Link, src, dest, below);
    let i = choose|i: int| 0 <= i < a.len() && a[i] == file_step(TreeWork::Copy, from, to);
    let j = choose|j: int| 0 <= j < b.len() && b[j] == file_step(TreeWork::Link, from, to);
    let copy = secret_steps(TreeWork::Copy, dir, node);
    let link = secret_steps(TreeWork::Link, dir, node);
    assert(copy[n + i] == a[i]);
    assert(link[n + j] == b[j]);
    assert(does(copy[n + i], OpView::CopyFile { from, to }));
    assert(does(link[n + j], OpView::Symlink { target: from, link: to }));
}

} // verus!
