//! Taking over a root filesystem: what is on it moves aside, except for what the
//! new system needs and what a list asks to keep.
use vstd::prelude::*;

use crate::paths::{join_path, quote_path};
#[allow(unused_imports)]
use crate::paths::{is_absolute, joined, lemma_joined, parent, quoted};
use crate::script::{
    append_steps, if_holds_step, log_step, must_step, no_steps, push_step, should_step, Check, Op,
    Response, Step,
};
#[allow(unused_imports)]
use crate::script::{
    does, if_holds, lemma_scripts_in_a_row, log, must, performed, reaction, script_stops,
    self_contained, should, vital_are, CheckView, OpView, Outcome, ReactionView, ResponseView,
    StepView,
};
use crate::setup::push_above;
#[allow(unused_imports)]
use crate::setup::above_steps;
use crate::text::{
    cat3, cat4, same_text, split_lines, starts_with, starts_with_char, strip_leading, trim,
};
#[allow(unused_imports)]
use crate::text::{
    has_prefix, lemma_contains_push, lemma_take_next, lines, split, trimmed, without_leading,
};
use crate::trees::{push_break, push_copy, Break};
#[allow(unused_imports)]
use crate::trees::{break_steps, copy_step, BreakView};

verus! {

/// The file that asks for it, and lists what to keep.
pub open spec fn lustrate_file(target_root: Seq<char>) -> Seq<char> {
    joined(target_root, "nixos-lustrate"@)
}

/// Where things are moved until all of them are: a second run after a broken one
/// finds it and goes on.
pub open spec fn staging_dir(target_root: Seq<char>) -> Seq<char> {
    joined(target_root, "old-root.tmp"@)
}

/// Where things are in the end.
pub open spec fn backup_dir(target_root: Seq<char>) -> Seq<char> {
    joined(target_root, "old-root"@)
}

/// Whether an entry of the root directory stays in its place.
pub open spec fn stays(name: Seq<char>) -> bool {
    ||| has_prefix(name, "nix"@)
    ||| has_prefix(name, "boot"@)
    ||| name == "old-root"@
    ||| name == "old-root.tmp"@
}

/// The entries of the root directory that are moved, in order.
pub open spec fn moved_names(names: Seq<Seq<char>>) -> Seq<Seq<char>>
    decreases names.len(),
{
    if names.len() == 0 {
        Seq::empty()
    } else {
        let front = moved_names(names.drop_last());
        if stays(names.last()) {
            front
        } else {
            front.push(names.last())
        }
    }
}

/// The steps that move something: by its name where that works, else by a copy
/// after which the old one is removed.
pub open spec fn move_path_steps(src: Seq<char>, dst: Seq<char>) -> Seq<StepView> {
    seq![
        StepView::Do {
            op: OpView::Rename { from: src, to: dst },
            success: ResponseView::Finish,
            exit: ResponseView::Continue,
            failure: ResponseView::Continue,
        },
        if_holds(CheckView::IsDirectory(src), 3),
        should(OpView::CopyTree { from: src, to: dst }),
        must(
            OpView::RemoveTree(src),
            "Failed to remove "@ + quoted(src) + " after copy"@,
        ),
        StepView::Skip { skip: 2 },
        copy_step(src, dst),
        must(
            OpView::RemoveFile(src),
            "Failed to remove "@ + quoted(src) + " after copy"@,
        ),
    ]
}

/// Moves something.
pub fn move_path(src: &str, dst: &str) -> (r: Vec<Step>)
    ensures
        r.deep_view() == move_path_steps(src@, dst@),
{
    let mut steps = no_steps();
    push_step(
        &mut steps,
        Step::Do {
            op: Op::Rename { from: src.to_owned(), to: dst.to_owned() },
            success: Response::Finish,
            exit: Response::Continue,
            failure: Response::Continue,
        },
    );
    let context = cat3("Failed to remove ", quote_path(src).as_str(), " after copy");
    push_step(&mut steps, if_holds_step(Check::IsDirectory(src.to_owned()), 3));
    push_step(
        &mut steps,
        should_step(Op::CopyTree { from: src.to_owned(), to: dst.to_owned() }),
    );
    push_step(&mut steps, must_step(Op::RemoveTree(src.to_owned()), context.as_str()));
    push_step(&mut steps, Step::Skip { skip: 2 });
    push_copy(&mut steps, src, dst);
    push_step(&mut steps, must_step(Op::RemoveFile(src.to_owned()), context.as_str()));
    assert(steps.deep_view() =~= move_path_steps(src@, dst@));
    steps
}

/// The step that moves an entry of the root directory to the staging directory.
/// One that cannot be moved is warned about.
pub open spec fn aside_step(target_root: Seq<char>, name: Seq<char>) -> StepView {
    let from = joined(target_root, name);
    StepView::Do {
        op: OpView::MovePath { from, to: joined(staging_dir(target_root), name) },
        success: ResponseView::Continue,
        exit: ResponseView::Continue,
        failure: ResponseView::LogError("Warning: move failed for "@ + quoted(from) + ": "@),
    }
}

/// The steps that move the entries of the root directory to the staging
/// directory.
pub open spec fn aside_steps(target_root: Seq<char>, names: Seq<Seq<char>>) -> Seq<StepView> {
    moved_names(names).map_values(|name: Seq<char>| aside_step(target_root, name))
}

fn move_aside(target_root: &str, name: &str) -> (r: Step)
    ensures
        r.deep_view() == aside_step(target_root@, name@),
{
    let from = join_path(target_root, name);
    let to = join_path(join_path(target_root, "old-root.tmp").as_str(), name);
    let warning = cat3("Warning: move failed for ", quote_path(from.as_str()).as_str(), ": ");
    Step::Do {
        op: Op::MovePath { from, to },
        success: Response::Continue,
        exit: Response::Continue,
        failure: Response::LogError(warning),
    }
}

fn move_all_aside(target_root: &str, names: &Vec<String>) -> (r: Vec<Step>)
    ensures
        r.deep_view() == aside_steps(target_root@, names.deep_view()),
{
    let mut steps = no_steps();
    let mut i: usize = 0;
    assert(steps.deep_view() =~= aside_steps(target_root@, names.deep_view().take(0)));
    while i < names.len()
        invariant
            i <= names@.len(),
            steps.deep_view() == aside_steps(target_root@, names.deep_view().take(i as int)),
        decreases names.len() - i,
    {
        let ghost front = moved_names(names.deep_view().take(i as int));
        proof {
            lemma_take_next(names.deep_view(), i as int);
        }
        let name = names[i].as_str();
        if !(starts_with(name, "nix") || starts_with(name, "boot") || same_text(name, "old-root")
            || same_text(name, "old-root.tmp")) {
            push_step(&mut steps, move_aside(target_root, name));
            assert(steps.deep_view() =~= front.push(name@).map_values(
                |name: Seq<char>| aside_step(target_root@, name),
            ));
        }
        i = i + 1;
    }
    assert(names.deep_view().take(names@.len() as int) =~= names.deep_view());
    steps
}

/// What a line of the list asks to keep, seen from the root directory; nothing
/// where it is empty or a comment.
pub open spec fn keeper(line: Seq<char>) -> Option<Seq<char>> {
    let text = trimmed(line);
    if text.len() == 0 || text[0] == '#' {
        None
    } else {
        Some(without_leading(text, '/'))
    }
}

/// The step that copies something back. One that cannot be brought back is
/// warned about.
pub open spec fn bring_back(op: OpView, src: Seq<char>) -> StepView {
    StepView::Do {
        op,
        success: ResponseView::Continue,
        exit: ResponseView::Continue,
        failure: ResponseView::LogError("Warning: failed to restore "@ + quoted(src) + ": "@),
    }
}

/// The steps that bring something back that was moved, where it is there: a
/// directory with all that lies below it, anything else as a file.
pub open spec fn restore_steps(target_root: Seq<char>, rel: Seq<char>) -> Seq<StepView> {
    let src = joined(backup_dir(target_root), rel);
    let dst = joined(target_root, rel);
    let restore = above_steps(dst) + seq![
        if_holds(CheckView::IsDirectory(src), 2),
        bring_back(OpView::CopyTree { from: src, to: dst }, src),
        StepView::Skip { skip: 1 },
        bring_back(OpView::CopyFile { from: src, to: dst }, src),
    ];
    seq![if_holds(CheckView::Exists(src), restore.len() as usize)] + restore
}

/// The steps that bring back what the lines of a list ask to keep.
pub open spec fn keeper_steps(target_root: Seq<char>, ls: Seq<Seq<char>>) -> Seq<StepView>
    decreases ls.len(),
{
    if ls.len() == 0 {
        Seq::empty()
    } else {
        let front = keeper_steps(target_root, ls.drop_last());
        match keeper(ls.last()) {
            Some(rel) => front + restore_steps(target_root, rel),
            None => front,
        }
    }
}

/// The steps after everything is moved: the staging directory gets its name, and
/// what is to be kept is brought back. The request is withdrawn last.
pub open spec fn finish_steps(target_root: Seq<char>, content: Seq<char>) -> Seq<StepView> {
    seq![
        must(
            OpView::Rename { from: staging_dir(target_root), to: backup_dir(target_root) },
            "Failed to rename "@ + quoted(staging_dir(target_root)) + " to "@ + quoted(
                backup_dir(target_root),
            ),
        ),
    ] + keeper_steps(target_root, lines(content)) + seq![
        should(OpView::RemoveFile(lustrate_file(target_root))),
        log("Lustrate complete"@),
    ]
}

fn copy_back(op: Op, src: &str) -> (r: Step)
    ensures
        r.deep_view() == bring_back(op.deep_view(), src@),
{
    Step::Do {
        op,
        success: Response::Continue,
        exit: Response::Continue,
        failure: Response::LogError(
            cat3("Warning: failed to restore ", quote_path(src).as_str(), ": "),
        ),
    }
}

fn push_restore(steps: &mut Vec<Step>, target_root: &str, rel: &str)
    ensures
        final(steps).deep_view() == old(steps).deep_view() + restore_steps(target_root@, rel@),
{
    let ghost before = steps.deep_view();
    let src = join_path(join_path(target_root, "old-root").as_str(), rel);
    let dst = join_path(target_root, rel);
    let mut restore = no_steps();
    push_above(&mut restore, dst.as_str());
    push_step(&mut restore, if_holds_step(Check::IsDirectory(src.clone()), 2));
    let tree = Op::CopyTree { from: src.clone(), to: dst.clone() };
    push_step(&mut restore, copy_back(tree, src.as_str()));
    push_step(&mut restore, Step::Skip { skip: 1 });
    let file = Op::CopyFile { from: src.clone(), to: dst };
    push_step(&mut restore, copy_back(file, src.as_str()));
    assert(restore@.len() == restore.deep_view().len());
    push_step(steps, if_holds_step(Check::Exists(src), restore.len()));
    append_steps(steps, restore);
    assert(steps.deep_view() =~= before + restore_steps(target_root@, rel@));
}

/// The file that asks for it.
pub fn lustrate_request(target_root: &str) -> (r: String)
    ensures
        r@ == lustrate_file(target_root@),
{
    join_path(target_root, "nixos-lustrate")
}

/// The steps before the file that asks for a lustration is read, and the steps
/// after it.
pub open spec fn lustrate_begin(target_root: Seq<char>, asked: bool) -> Option<
    (Seq<StepView>, Seq<StepView>),
> {
    if asked {
        Some(
            (
                seq![log("Handling NIXOS_LUSTRATE..."@)],
                seq![should(OpView::CreateDir(staging_dir(target_root)))],
            ),
        )
    } else {
        None
    }
}

/// What goes before a lustration, given whether the file that asks for it is
/// there: the steps before that file is read, and the steps after it. Nothing is
/// done where it is not asked for.
pub fn begin_lustrate(target_root: &str, asked: bool) -> (r: Option<(Vec<Step>, Vec<Step>)>)
    ensures
        match r {
            Some(begin) => lustrate_begin(target_root@, asked) == Some(
                (begin.0.deep_view(), begin.1.deep_view()),
            ),
            None => lustrate_begin(target_root@, asked) is None,
        },
{
    if !asked {
        return None;
    }
    let mut announce = no_steps();
    push_step(&mut announce, log_step("Handling NIXOS_LUSTRATE..."));
    assert(announce.deep_view() =~= seq![log("Handling NIXOS_LUSTRATE..."@)]);
    let mut prepare = no_steps();
    push_step(
        &mut prepare,
        should_step(Op::CreateDir(join_path(target_root, "old-root.tmp"))),
    );
    assert(prepare.deep_view() =~= seq![should(OpView::CreateDir(staging_dir(target_root@)))]);
    Some((announce, prepare))
}

/// The steps of a lustration, given what the file that asks for it says and the
/// entries of the root directory. Where their listing broke off, those that were
/// listed are moved, and no more is done.
pub open spec fn lustrate_steps(
    target_root: Seq<char>,
    content: Seq<char>,
    names: Seq<Seq<char>>,
    failure: Option<BreakView>,
) -> Seq<StepView> {
    aside_steps(target_root, names) + break_steps(failure) + finish_steps(target_root, content)
}

/// Takes a root filesystem over.
pub fn handle_lustrate(
    target_root: &str,
    content: &str,
    names: &Vec<String>,
    failure: &Option<Break>,
) -> (r: Vec<Step>)
    ensures
        r.deep_view() == lustrate_steps(
            target_root@,
            content@,
            names.deep_view(),
            failure.deep_view(),
        ),
{
    let mut steps = move_all_aside(target_root, names);
    push_break(&mut steps, failure);
    append_steps(&mut steps, finish_lustrate(target_root, content));
    steps
}

fn finish_lustrate(target_root: &str, content: &str) -> (r: Vec<Step>)
    ensures
        r.deep_view() == finish_steps(target_root@, content@),
{
    let mut steps = no_steps();
    let staging = join_path(target_root, "old-root.tmp");
    let backup = join_path(target_root, "old-root");
    let context = cat4(
        "Failed to rename ",
        quote_path(staging.as_str()).as_str(),
        " to ",
        quote_path(backup.as_str()).as_str(),
    );
    push_step(
        &mut steps,
        must_step(Op::Rename { from: staging, to: backup }, context.as_str()),
    );
    let ghost first = steps.deep_view();
    let ls = split_lines(content);
    let mut i: usize = 0;
    assert(steps.deep_view() =~= first + keeper_steps(target_root@, ls.deep_view().take(0)));
    while i < ls.len()
        invariant
            i <= ls@.len(),
            steps.deep_view() == first + keeper_steps(target_root@, ls.deep_view().take(i as int)),
        decreases ls.len() - i,
    {
        let ghost kept = keeper_steps(target_root@, ls.deep_view().take(i as int));
        proof {
            lemma_take_next(ls.deep_view(), i as int);
        }
        let text = trim(ls[i].as_str());
        if !text.as_str().is_empty() && !starts_with_char(text.as_str(), '#') {
            let rel = strip_leading(text.as_str(), '/');
            push_restore(&mut steps, target_root, rel.as_str());
            assert(steps.deep_view() =~= first + (kept + restore_steps(target_root@, rel@)));
        }
        i = i + 1;
    }
    assert(ls.deep_view().take(ls@.len() as int) =~= ls.deep_view());
    push_step(&mut steps, should_step(Op::RemoveFile(join_path(target_root, "nixos-lustrate"))));
    push_step(&mut steps, log_step("Lustrate complete"));
    assert(steps.deep_view() =~= finish_steps(target_root@, content@));
    steps
}

// ---------------------------------------------------------------------------
// Laws
// ---------------------------------------------------------------------------
/// What is moved is exactly what does not stay: the store, the boot files and
/// earlier backups are never touched, and nothing else is left behind.
pub proof fn lemma_moved_names(names: Seq<Seq<char>>, name: Seq<char>)
    ensures
        moved_names(names).contains(name) <==> names.contains(name) && !stays(name),
    decreases names.len(),
{
    if names.len() > 0 {
        let front = names.drop_last();
        lemma_moved_names(front, name);
        assert(names =~= front.push(names.last()));
        lemma_contains_push(front, names.last(), name);
        lemma_contains_push(moved_names(front), names.last(), name);
    }
}

/// The file that asks for it stays, and so do both directories it fills: a run
/// that broke off is taken up again.
pub proof fn lemma_request_stays()
    ensures
        stays("nixos-lustrate"@),
        stays("old-root"@),
        stays("old-root.tmp"@),
{
    reveal_strlit("nixos-lustrate");
    reveal_strlit("nix");
    assert("nixos-lustrate"@.take(3) =~= "nix"@);
}

/// The backup gets its name only after everything is moved, and the request is
/// withdrawn only after what is to be kept was brought back.
pub proof fn lemma_order_of_lustration(
    target_root: Seq<char>,
    content: Seq<char>,
    names: Seq<Seq<char>>,
)
    ensures
        ({
            let steps = lustrate_steps(target_root, content, names, None);
            let moved = moved_names(names).len() as int;
            let n = steps.len() as int;
            &&& 0 <= moved < n - 2
            &&& forall|i: int|
                0 <= i < moved ==> #[trigger] steps[i] == aside_step(
                    target_root,
                    moved_names(names)[i],
                )
            &&& (steps[moved] matches StepView::Do { op, .. } && op == (OpView::Rename {
                from: staging_dir(target_root),
                to: backup_dir(target_root),
            }))
            &&& steps.subrange(moved + 1, n - 2) == keeper_steps(target_root, lines(content))
            &&& steps[n - 2] == should(OpView::RemoveFile(lustrate_file(target_root)))
        }),
{
    let steps = lustrate_steps(target_root, content, names, None);
    let moved = moved_names(names).len() as int;
    let n = steps.len() as int;
    assert(steps.subrange(moved + 1, n - 2) =~= keeper_steps(target_root, lines(content)));
}

/// What can be renamed is only renamed, and otherwise nothing is removed before
/// it was copied.
pub proof fn lemma_move_loses_nothing(
    src: Seq<char>,
    dst: Seq<char>,
    holds: spec_fn(CheckView) -> bool,
    outcome: spec_fn(OpView) -> Outcome,
)
    requires
        !(outcome(OpView::Rename { from: src, to: dst }) is Exited),
    ensures
        ({
            let ops = performed(move_path_steps(src, dst), 0, holds, outcome);
            let rename = OpView::Rename { from: src, to: dst };
            let copy = if holds(CheckView::IsDirectory(src)) {
                OpView::CopyTree { from: src, to: dst }
            } else {
                OpView::CopyFile { from: src, to: dst }
            };
            let remove = if holds(CheckView::IsDirectory(src)) {
                OpView::RemoveTree(src)
            } else {
                OpView::RemoveFile(src)
            };
            ops == if outcome(rename) == Outcome::Done {
                seq![rename]
            } else if outcome(copy) == Outcome::Failed {
                seq![rename, copy]
            } else {
                seq![rename, copy, remove]
            }
        }),
{
    let steps = move_path_steps(src, dst);
    reveal_with_fuel(performed, 6);
    assert(performed(steps, 7, holds, outcome) == Seq::<OpView>::empty());
    assert(performed(steps, 6, holds, outcome) =~= seq![OpView::RemoveFile(src)]);
    assert(performed(steps, 4, holds, outcome) == Seq::<OpView>::empty());
    assert(performed(steps, 3, holds, outcome) =~= seq![OpView::RemoveTree(src)]);
    let rename = OpView::Rename { from: src, to: dst };
    if outcome(rename) == Outcome::Failed {
        if holds(CheckView::IsDirectory(src)) {
            let copy = OpView::CopyTree { from: src, to: dst };
            assert(performed(steps, 1, holds, outcome) == performed(steps, 2, holds, outcome));
            if outcome(copy) == Outcome::Failed {
                assert(performed(steps, 2, holds, outcome) =~= seq![copy]);
            } else {
                assert(performed(steps, 2, holds, outcome) =~= seq![copy, OpView::RemoveTree(src)]);
            }
        } else {
            let copy = OpView::CopyFile { from: src, to: dst };
            assert(performed(steps, 1, holds, outcome) == performed(steps, 5, holds, outcome));
            if outcome(copy) == Outcome::Failed {
                assert(performed(steps, 5, holds, outcome) =~= seq![copy]);
            } else {
                assert(performed(steps, 5, holds, outcome) =~= seq![copy, OpView::RemoveFile(src)]);
            }
        }
    }
}

/// What copies something back: a directory is copied as a tree, anything else as
/// a file.
pub open spec fn copy_back_op(
    target_root: Seq<char>,
    rel: Seq<char>,
    holds: spec_fn(CheckView) -> bool,
) -> OpView {
    let from = joined(backup_dir(target_root), rel);
    let to = joined(target_root, rel);
    if holds(CheckView::IsDirectory(from)) {
        OpView::CopyTree { from, to }
    } else {
        OpView::CopyFile { from, to }
    }
}

/// What is done to bring something back: nothing where it is not there.
pub open spec fn restored_ops(
    target_root: Seq<char>,
    rel: Seq<char>,
    holds: spec_fn(CheckView) -> bool,
) -> Seq<OpView> {
    if !holds(CheckView::Exists(joined(backup_dir(target_root), rel))) {
        Seq::empty()
    } else {
        (match parent(joined(target_root, rel)) {
            Some(dir) => seq![OpView::CreateDir(dir)],
            None => Seq::empty(),
        }).push(copy_back_op(target_root, rel, holds))
    }
}

/// What is done to bring back what the lines of a list ask to keep.
pub open spec fn kept_ops(
    target_root: Seq<char>,
    ls: Seq<Seq<char>>,
    holds: spec_fn(CheckView) -> bool,
) -> Seq<OpView>
    decreases ls.len(),
{
    if ls.len() == 0 {
        Seq::empty()
    } else {
        let front = kept_ops(target_root, ls.drop_last(), holds);
        match keeper(ls.last()) {
            Some(rel) => front + restored_ops(target_root, rel, holds),
            None => front,
        }
    }
}

/// What moves the entries of the root directory.
pub open spec fn aside_ops(target_root: Seq<char>, names: Seq<Seq<char>>) -> Seq<OpView> {
    moved_names(names).map_values(
        |name: Seq<char>|
            OpView::MovePath {
                from: joined(target_root, name),
                to: joined(staging_dir(target_root), name),
            },
    )
}

/// A listed entry that is there is brought back as what it is: by the copy of a
/// tree where it is a directory, and by the copy of a file otherwise. That holds
/// unless the directory above it cannot be created.
pub proof fn lemma_listed_entry_is_restored(
    target_root: Seq<char>,
    rel: Seq<char>,
    holds: spec_fn(CheckView) -> bool,
    outcome: spec_fn(OpView) -> Outcome,
)
    requires
        forall|dir: Seq<char>| #[trigger] outcome(OpView::CreateDir(dir)) != Outcome::Failed,
    ensures
        performed(restore_steps(target_root, rel), 0, holds, outcome) == restored_ops(
            target_root,
            rel,
            holds,
        ),
        !script_stops(restore_steps(target_root, rel), 0, holds, outcome),
        self_contained(restore_steps(target_root, rel)),
{
    let src = joined(backup_dir(target_root), rel);
    let dst = joined(target_root, rel);
    let steps = restore_steps(target_root, rel);
    let n = above_steps(dst).len() as int;
    let tree = OpView::CopyTree { from: src, to: dst };
    let file = OpView::CopyFile { from: src, to: dst };
    assert(steps.len() == n + 5);
    assert(steps[0] == if_holds(CheckView::Exists(src), (n + 4) as usize));
    assert(steps[n + 1] == if_holds(CheckView::IsDirectory(src), 2));
    assert(steps[n + 2] == bring_back(tree, src));
    assert(steps[n + 3] == (StepView::Skip { skip: 1 }));
    assert(steps[n + 4] == bring_back(file, src));
    reveal_with_fuel(performed, 2);
    reveal_with_fuel(script_stops, 2);
    assert(performed(steps, n + 5, holds, outcome) == Seq::<OpView>::empty());
    assert(performed(steps, n + 4, holds, outcome) =~= seq![file]);
    assert(performed(steps, n + 3, holds, outcome) == Seq::<OpView>::empty());
    assert(performed(steps, n + 2, holds, outcome) =~= seq![tree]);
    let copy = copy_back_op(target_root, rel, holds);
    assert(performed(steps, n + 1, holds, outcome) == seq![copy]);
    assert(!script_stops(steps, n + 4, holds, outcome));
    assert(!script_stops(steps, n + 3, holds, outcome));
    assert(!script_stops(steps, n + 2, holds, outcome));
    assert(!script_stops(steps, n + 1, holds, outcome));
    match parent(dst) {
        Some(dir) => {
            assert(steps[1] == should(OpView::CreateDir(dir)));
            assert(outcome(OpView::CreateDir(dir)) != Outcome::Failed);
            assert(performed(steps, 1, holds, outcome) == seq![OpView::CreateDir(dir)] + seq![
                copy,
            ]);
            assert(seq![OpView::CreateDir(dir)] + seq![copy] =~= seq![OpView::CreateDir(dir)].push(
                copy,
            ));
        },
        None => {
            assert(Seq::<OpView>::empty().push(copy) =~= seq![copy]);
        },
    }
}

proof fn lemma_keepers(
    target_root: Seq<char>,
    ls: Seq<Seq<char>>,
    holds: spec_fn(CheckView) -> bool,
    outcome: spec_fn(OpView) -> Outcome,
)
    requires
        forall|dir: Seq<char>| #[trigger] outcome(OpView::CreateDir(dir)) != Outcome::Failed,
    ensures
        performed(keeper_steps(target_root, ls), 0, holds, outcome) == kept_ops(
            target_root,
            ls,
            holds,
        ),
        !script_stops(keeper_steps(target_root, ls), 0, holds, outcome),
        self_contained(keeper_steps(target_root, ls)),
    decreases ls.len(),
{
    if ls.len() > 0 {
        lemma_keepers(target_root, ls.drop_last(), holds, outcome);
        match keeper(ls.last()) {
            Some(rel) => {
                lemma_listed_entry_is_restored(target_root, rel, holds, outcome);
                lemma_scripts_in_a_row(
                    keeper_steps(target_root, ls.drop_last()),
                    restore_steps(target_root, rel),
                    0,
                    holds,
                    outcome,
                );
            },
            None => {},
        }
    }
}

proof fn lemma_all_aside(
    target_root: Seq<char>,
    moved: Seq<Seq<char>>,
    at: int,
    holds: spec_fn(CheckView) -> bool,
    outcome: spec_fn(OpView) -> Outcome,
)
    requires
        0 <= at <= moved.len(),
    ensures
        ({
            let steps = moved.map_values(|name: Seq<char>| aside_step(target_root, name));
            let ops = moved.map_values(
                |name: Seq<char>|
                    OpView::MovePath {
                        from: joined(target_root, name),
                        to: joined(staging_dir(target_root), name),
                    },
            );
            &&& performed(steps, at, holds, outcome) == ops.skip(at)
            &&& !script_stops(steps, at, holds, outcome)
            &&& self_contained(steps)
        }),
    decreases moved.len() - at,
{
    let steps = moved.map_values(|name: Seq<char>| aside_step(target_root, name));
    let ops = moved.map_values(
        |name: Seq<char>|
            OpView::MovePath {
                from: joined(target_root, name),
                to: joined(staging_dir(target_root), name),
            },
    );
    if at < moved.len() {
        lemma_all_aside(target_root, moved, at + 1, holds, outcome);
        assert(steps[at] == aside_step(target_root, moved[at]));
        assert(ops.skip(at) =~= seq![ops[at]] + ops.skip(at + 1));
    } else {
        assert(ops.skip(at) =~= Seq::empty());
    }
}

/// A lustration in which nothing fails that would stop it: everything that does
/// not stay is moved, the backup gets its name, each listed entry that is there
/// is brought back as what it is, and the request is withdrawn. A move or a
/// restoration may fail; the rest is done all the same.
pub proof fn lemma_lustration(
    target_root: Seq<char>,
    content: Seq<char>,
    names: Seq<Seq<char>>,
    holds: spec_fn(CheckView) -> bool,
    outcome: spec_fn(OpView) -> Outcome,
)
    requires
        forall|dir: Seq<char>| #[trigger] outcome(OpView::CreateDir(dir)) != Outcome::Failed,
        outcome(
            OpView::Rename { from: staging_dir(target_root), to: backup_dir(target_root) },
        ) != Outcome::Failed,
        outcome(OpView::RemoveFile(lustrate_file(target_root))) != Outcome::Failed,
    ensures
        ({
            let steps = lustrate_steps(target_root, content, names, None);
            performed(steps, 0, holds, outcome) == aside_ops(target_root, names) + (seq![
                OpView::Rename { from: staging_dir(target_root), to: backup_dir(target_root) },
            ] + kept_ops(target_root, lines(content), holds) + seq![
                OpView::RemoveFile(lustrate_file(target_root)),
                OpView::Log("Lustrate complete"@),
            ])
        }),
{
    let rename = OpView::Rename { from: staging_dir(target_root), to: backup_dir(target_root) };
    let aside = aside_steps(target_root, names);
    let finish = finish_steps(target_root, content);
    let keep = keeper_steps(target_root, lines(content));
    let first = finish.take(1);
    let end = seq![
        should(OpView::RemoveFile(lustrate_file(target_root))),
        log("Lustrate complete"@),
    ];
    lemma_all_aside(target_root, moved_names(names), 0, holds, outcome);
    assert(aside_ops(target_root, names).skip(0) =~= aside_ops(target_root, names));
    lemma_scripts_in_a_row(aside, finish, 0, holds, outcome);
    assert(aside + break_steps(None) =~= aside);
    lemma_keepers(target_root, lines(content), holds, outcome);
    reveal_with_fuel(performed, 3);
    reveal_with_fuel(script_stops, 3);
    assert(finish =~= first + keep + end);
    assert(performed(first, 0, holds, outcome) =~= seq![rename]);
    lemma_scripts_in_a_row(first, keep, 0, holds, outcome);
    lemma_scripts_in_a_row(first + keep, end, 0, holds, outcome);
    assert(performed(end, 1, holds, outcome) =~= seq![OpView::Log("Lustrate complete"@)]);
    assert(performed(end, 0, holds, outcome) =~= seq![
        OpView::RemoveFile(lustrate_file(target_root)),
        OpView::Log("Lustrate complete"@),
    ]);
}

/// Where the listing of the root directory breaks off, what was listed is moved
/// and the lustration fails: the backup does not get its name, and the request
/// stays for the next run.
pub proof fn lemma_broken_listing(
    target_root: Seq<char>,
    content: Seq<char>,
    names: Seq<Seq<char>>,
    why: BreakView,
    holds: spec_fn(CheckView) -> bool,
    outcome: spec_fn(OpView) -> Outcome,
)
    ensures
        ({
            let steps = lustrate_steps(target_root, content, names, Some(why));
            &&& performed(steps, 0, holds, outcome) == aside_ops(target_root, names)
            &&& script_stops(steps, 0, holds, outcome)
        }),
{
    let aside = aside_steps(target_root, names);
    let broken = break_steps(Some(why));
    let finish = finish_steps(target_root, content);
    lemma_all_aside(target_root, moved_names(names), 0, holds, outcome);
    assert(aside_ops(target_root, names).skip(0) =~= aside_ops(target_root, names));
    lemma_scripts_in_a_row(aside, broken, 0, holds, outcome);
    assert(performed(broken, 0, holds, outcome) == Seq::<OpView>::empty());
    assert(aside_ops(target_root, names) + Seq::<OpView>::empty() =~= aside_ops(
        target_root,
        names,
    ));
    lemma_scripts_in_a_row(aside + broken, finish, 0, holds, outcome);
}

/// A lustration takes place exactly where the file that asks for it is there, and
/// things are moved to a directory that is created before.
pub proof fn lemma_lustration_on_demand(
    target_root: Seq<char>,
    holds: spec_fn(CheckView) -> bool,
    outcome: spec_fn(OpView) -> Outcome,
)
    requires
        target_root.len() > 0 && target_root.last() != '/',
    ensures
        lustrate_begin(target_root, false) is None,
        lustrate_begin(target_root, true) is Some,
        performed((lustrate_begin(target_root, true)->0).1, 0, holds, outcome) == seq![
            OpView::CreateDir(target_root + "/old-root.tmp"@),
        ],
        lustrate_file(target_root) == target_root + "/nixos-lustrate"@,
        staging_dir(target_root) == target_root + "/old-root.tmp"@,
        backup_dir(target_root) == target_root + "/old-root"@,
{
    reveal_strlit("nixos-lustrate");
    reveal_strlit("old-root.tmp");
    reveal_strlit("old-root");
    reveal_strlit("/nixos-lustrate");
    reveal_strlit("/old-root.tmp");
    reveal_strlit("/old-root");
    lemma_joined(target_root, "nixos-lustrate"@);
    lemma_joined(target_root, "old-root.tmp"@);
    lemma_joined(target_root, "old-root"@);
    assert(lustrate_file(target_root) =~= target_root + "/nixos-lustrate"@);
    assert(staging_dir(target_root) =~= target_root + "/old-root.tmp"@);
    assert(backup_dir(target_root) =~= target_root + "/old-root"@);
    let steps = (lustrate_begin(target_root, true)->0).1;
    let create = OpView::CreateDir(target_root + "/old-root.tmp"@);
    assert(does(steps[0], create));
    assert(performed(steps, 1, holds, outcome) == Seq::<OpView>::empty());
    assert(performed(steps, 0, holds, outcome) =~= seq![create]);
}

/// An entry of the root directory goes to the staging directory under its own name,
/// unless it begins like the store or the boot files or is one of the two
/// directories of a lustration; then it is not touched.
pub proof fn lemma_what_is_moved(
    target_root: Seq<char>,
    names: Seq<Seq<char>>,
    name: Seq<char>,
)
    requires
        target_root.len() > 0 && target_root.last() != '/',
        names.contains(name),
        !is_absolute(name),
    ensures
        ({
            let from = target_root + seq!['/'] + name;
            let to = target_root + "/old-root.tmp"@ + seq!['/'] + name;
            aside_ops(target_root, names).contains(OpView::MovePath { from, to }) <==> !(has_prefix(
                name,
                "nix"@,
            ) || has_prefix(name, "boot"@) || name == "old-root"@ || name == "old-root.tmp"@)
        }),
{
    lemma_lustration_on_demand(
        target_root,
        |check: CheckView| true,
        |op: OpView| Outcome::Done,
    );
    lemma_joined(target_root, name);
    reveal_strlit("/old-root.tmp");
    let staging = staging_dir(target_root);
    assert(staging.last() == 'p');
    lemma_joined(staging, name);
    lemma_moved_names(names, name);
    let moved = moved_names(names);
    let ops = aside_ops(target_root, names);
    let from = target_root + seq!['/'] + name;
    let to = staging + seq!['/'] + name;
    let op = OpView::MovePath { from, to };
    if moved.contains(name) {
        let i = choose|i: int| 0 <= i < moved.len() && moved[i] == name;
        assert(ops[i] == op);
    }
    if ops.contains(op) {
        let i = choose|i: int| 0 <= i < ops.len() && ops[i] == op;
        let other = moved[i];
        assert(joined(target_root, other) == from);
        assert(joined(staging, other) == to);
        lemma_joined(target_root, other);
        lemma_joined(staging, other);
        if is_absolute(other) {
            assert(from == to);
            assert(from.len() != to.len());
        } else {
            let n = target_root.len() as int + 1;
            assert(from.skip(n) =~= name);
            assert((target_root + seq!['/'] + other).skip(n) =~= other);
        }
        assert(moved.contains(other));
    }
}

/// A line of the list asks for what it names, with or without a slash before it and
/// whatever white space stands around it; comments and empty lines ask for nothing.
pub proof fn lemma_keeper(line: Seq<char>, rel: Seq<char>)
    requires
        rel.len() > 0,
        rel[0] != '/',
        rel[0] != '#',
    ensures
        trimmed(line) == rel ==> keeper(line) == Some(rel),
        trimmed(line) == seq!['/'] + rel ==> keeper(line) == Some(rel),
        trimmed(line).len() == 0 ==> keeper(line) is None,
        trimmed(line).len() > 0 && trimmed(line)[0] == '#' ==> keeper(line) is None,
{
    assert((seq!['/'] + rel).skip(1) =~= rel);
}

/// What is moved or brought back may fail; that the backup does not get its name,
/// that the request cannot be withdrawn, or that there is no place for what is
/// brought back is an error.
pub proof fn lemma_vital_lustration(
    target_root: Seq<char>,
    names: Seq<Seq<char>>,
    rel: Seq<char>,
)
    ensures
        vital_are(aside_steps(target_root, names), |op: OpView| false),
        vital_are(restore_steps(target_root, rel), |op: OpView| op is CreateDir),
        vital_are(
            finish_steps(target_root, Seq::empty()),
            |op: OpView| op is Rename || op is RemoveFile,
        ),
        vital_are((lustrate_begin(target_root, true)->0).1, |op: OpView| true),
{
    assert(split(Seq::empty(), '\n') =~= seq![Seq::<char>::empty()]);
    assert(lines(Seq::empty()) =~= Seq::empty());
    assert(finish_steps(target_root, Seq::empty()).len() == 3);
    let restore = restore_steps(target_root, rel);
    let n = above_steps(joined(target_root, rel)).len() as int;
    assert(restore.len() == n + 5);
    assert forall|i: int| 0 <= i < restore.len() && (#[trigger] restore[i]) is Do implies (reaction(
        restore[i],
        Outcome::Failed,
    ).fails() <==> restore[i]->Do_op is CreateDir) by {
        if i == 0 {
        } else if i <= n {
            assert(restore[i] == above_steps(joined(target_root, rel))[i - 1]);
        } else if i == n + 1 {
        } else if i == n + 2 {
        } else if i == n + 3 {
        } else {
        }
    }
    let aside = aside_steps(target_root, names);
    assert forall|i: int| 0 <= i < aside.len() && (#[trigger] aside[i]) is Do implies !reaction(
        aside[i],
        Outcome::Failed,
    ).fails() by {
        assert(aside[i] == aside_step(target_root, moved_names(names)[i]));
    }
}

/// What is said of something that cannot be moved or brought back names it.
pub proof fn lemma_words_on_lustration(target_root: Seq<char>, name: Seq<char>, op: OpView)
    ensures
        reaction(aside_step(target_root, name), Outcome::Failed) == ReactionView::LogError(
            "Warning: move failed for "@ + quoted(joined(target_root, name)) + ": "@,
        ),
        reaction(bring_back(op, name), Outcome::Failed) == ReactionView::LogError(
            "Warning: failed to restore "@ + quoted(name) + ": "@,
        ),
        reaction(finish_steps(target_root, Seq::empty())[0], Outcome::Failed)
            == ReactionView::Abort(
            "Failed to rename "@ + quoted(staging_dir(target_root)) + " to "@ + quoted(
                backup_dir(target_root),
            ),
        ),
        reaction(move_path_steps(name, target_root)[3], Outcome::Failed) == ReactionView::Abort(
            "Failed to remove "@ + quoted(name) + " after copy"@,
        ),
        reaction(move_path_steps(name, target_root)[6], Outcome::Failed) == ReactionView::Abort(
            "Failed to remove "@ + quoted(name) + " after copy"@,
        ),
{
}

} // verus!
