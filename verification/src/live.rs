//! Live systems: an image that is copied to memory, and storage that outlives a
//! boot.
use vstd::prelude::*;

use crate::cmdline::KernelCmdline;
use crate::flags::ms_bind;
#[allow(unused_imports)]
use crate::flags::MS_BIND;
use crate::paths::{join_path, quote_path};
#[allow(unused_imports)]
use crate::paths::{is_absolute, joined, lemma_joined, quoted};
use crate::script::{
    attempt_step, if_holds_step, log_step, must_step, no_steps, push_step, should_step, Check,
    MountCall, Op, Response, Step,
};
#[allow(unused_imports)]
use crate::script::{
    all_goes_well, attempt, does, exits_are_fine, if_holds, lemma_only_steps_are_performed, log,
    must, performed, reaction, script_fails, should, vital_are, CheckView, MountCallView, OpView,
    Outcome, ReactionView, ResponseView, StepView,
};
use crate::text::{cat2, cat3, split_once, strip_leading};
#[allow(unused_imports)]
use crate::text::{after, before, lemma_cut, without_leading};

verus! {

/// The steps that copy the image of a live system to memory. It goes on without
/// the copy where that fails.
pub open spec fn iso_steps(source: Seq<char>, target_root: Seq<char>) -> Seq<StepView> {
    let dest = joined(target_root, "iso"@);
    seq![
        log("Copying ISO to RAM..."@),
        should(OpView::CreateDir(dest)),
        StepView::Do {
            op: OpView::CopyTree { from: source, to: dest },
            success: ResponseView::Log("ISO copied to RAM"@),
            exit: ResponseView::Continue,
            failure: ResponseView::LogError("Warning: Failed to copy ISO to RAM: "@),
        },
    ]
}

/// Where the image of a live system is, unless the kernel command line says
/// otherwise.
pub open spec fn iso_source(asked: Option<Seq<char>>) -> Seq<char> {
    match asked {
        Some(path) => path,
        None => "/run/iso"@,
    }
}

/// Copies the image of a live system to memory, where that is asked for.
pub fn copy_iso_to_ram(cmdline: &KernelCmdline, target_root: &str) -> (r: Vec<Step>)
    ensures
        r.deep_view() == if cmdline.copy_to_ram {
            iso_steps(iso_source(cmdline.param("iso_source"@)), target_root@)
        } else {
            Seq::empty()
        },
{
    let mut steps = no_steps();
    if !cmdline.copy_to_ram {
        return steps;
    }
    push_step(&mut steps, log_step("Copying ISO to RAM..."));
    let source = match cmdline.get("iso_source") {
        Some(path) => path.clone(),
        None => "/run/iso".to_owned(),
    };
    let dest = join_path(target_root, "iso");
    push_step(&mut steps, should_step(Op::CreateDir(dest.clone())));
    push_step(
        &mut steps,
        Step::Do {
            op: Op::CopyTree { from: source, to: dest },
            success: Response::Log("ISO copied to RAM".to_owned()),
            exit: Response::Continue,
            failure: Response::LogError("Warning: Failed to copy ISO to RAM: ".to_owned()),
        },
    );
    assert(steps.deep_view() =~= iso_steps(
        iso_source(cmdline.param("iso_source"@)),
        target_root@,
    ));
    steps
}

/// Where persistent storage is mounted.
pub open spec fn persistence_mount() -> Seq<char> {
    "/run/persistence"@
}

/// The steps that mount the device of persistent storage and bind a directory of
/// it to the target root; a directory that is not there is warned about.
pub open spec fn persistence_steps(
    device: Seq<char>,
    path: Seq<char>,
    target_root: Seq<char>,
) -> Seq<StepView> {
    let source = joined(persistence_mount(), without_leading(path, '/'));
    seq![
        attempt(OpView::WaitForDevice { device, seconds: 10 }),
        should(OpView::CreateDir(persistence_mount())),
        must(
            OpView::Mount(
                MountCallView {
                    source: Some(device),
                    target: persistence_mount(),
                    fstype: Some("auto"@),
                    flags: 0,
                    data: None,
                },
            ),
            "Failed to mount persistence device"@,
        ),
        if_holds(CheckView::Exists(source), 3),
        log("Bind-mounting persistence from "@ + quoted(source)),
        must(
            OpView::Mount(
                MountCallView {
                    source: Some(source),
                    target: target_root,
                    fstype: None,
                    flags: MS_BIND,
                    data: None,
                },
            ),
            "Failed to bind-mount persistence"@,
        ),
        StepView::Skip { skip: 1 },
        log("Warning: persistence path "@ + quoted(source) + " not found"@),
    ]
}

/// The steps that set up persistent storage: `device:path` on the kernel command
/// line; without a device there is nothing to mount.
pub open spec fn all_persistence_steps(
    asked: Option<Seq<char>>,
    target_root: Seq<char>,
) -> Seq<StepView> {
    match asked {
        None => Seq::empty(),
        Some(opt) => seq![log("Setting up persistence: "@ + opt)] + match after(opt, ':') {
            None => Seq::empty(),
            Some(path) => persistence_steps(before(opt, ':'), path, target_root),
        },
    }
}

fn push_persistence(steps: &mut Vec<Step>, device: &str, path: &str, target_root: &str)
    ensures
        final(steps).deep_view() == old(steps).deep_view() + persistence_steps(
            device@,
            path@,
            target_root@,
        ),
{
    let ghost start = steps.deep_view();
    let source = join_path("/run/persistence", strip_leading(path, '/').as_str());
    push_step(
        steps,
        attempt_step(Op::WaitForDevice { device: device.to_owned(), seconds: 10 }),
    );
    push_step(steps, should_step(Op::CreateDir("/run/persistence".to_owned())));
    push_step(
        steps,
        must_step(
            Op::Mount(
                MountCall {
                    source: Some(device.to_owned()),
                    target: "/run/persistence".to_owned(),
                    fstype: Some("auto".to_owned()),
                    flags: 0,
                    data: None,
                },
            ),
            "Failed to mount persistence device",
        ),
    );
    push_step(steps, if_holds_step(Check::Exists(source.clone()), 3));
    let from = quote_path(source.as_str());
    push_step(steps, log_step(cat2("Bind-mounting persistence from ", from.as_str()).as_str()));
    push_step(
        steps,
        must_step(
            Op::Mount(
                MountCall {
                    source: Some(source),
                    target: target_root.to_owned(),
                    fstype: None,
                    flags: ms_bind(),
                    data: None,
                },
            ),
            "Failed to bind-mount persistence",
        ),
    );
    push_step(steps, Step::Skip { skip: 1 });
    push_step(
        steps,
        log_step(cat3("Warning: persistence path ", from.as_str(), " not found").as_str()),
    );
    assert(steps.deep_view() =~= start + persistence_steps(device@, path@, target_root@));
}

/// Sets up persistent storage, where that is asked for.
pub fn handle_persistence(cmdline: &KernelCmdline, target_root: &str) -> (r: Vec<Step>)
    ensures
        r.deep_view() == all_persistence_steps(cmdline.persistence.deep_view(), target_root@),
{
    let mut steps = no_steps();
    match &cmdline.persistence {
        None => {},
        Some(opt) => {
            push_step(
                &mut steps,
                log_step(cat2("Setting up persistence: ", opt.as_str()).as_str()),
            );
            let (device, path) = split_once(opt.as_str(), ':');
            match path {
                None => {},
                Some(path) => {
                    push_persistence(&mut steps, device.as_str(), path.as_str(), target_root);
                },
            }
        },
    }
    assert(steps.deep_view() =~= all_persistence_steps(
        cmdline.persistence.deep_view(),
        target_root@,
    ));
    steps
}

// ---------------------------------------------------------------------------
// Laws
// ---------------------------------------------------------------------------
/// The option that asks for persistent storage on a device, in the directory of
/// that path; the path may begin with a slash.
pub open spec fn persistence_option(
    device: Seq<char>,
    slash: bool,
    path: Seq<char>,
) -> Seq<char> {
    device + seq![':'] + if slash {
        seq!['/'] + path
    } else {
        path
    }
}

/// The call that mounts the device of persistent storage.
pub open spec fn persistent_device_call(device: Seq<char>) -> MountCallView {
    MountCallView {
        source: Some(device),
        target: "/run/persistence"@,
        fstype: Some("auto"@),
        flags: 0,
        data: None,
    }
}

/// Persistent storage is the directory that the option names, no other one: the
/// device is waited for and mounted at `/run/persistence`, and where the path is
/// there below that, exactly that is bound to the target root, by the last of
/// two mounts. Where it is not there the device is the only mount.
pub proof fn lemma_persistence(
    device: Seq<char>,
    slash: bool,
    path: Seq<char>,
    target_root: Seq<char>,
    holds: spec_fn(CheckView) -> bool,
    outcome: spec_fn(OpView) -> Outcome,
)
    requires
        !device.contains(':'),
        !is_absolute(path),
        all_goes_well(outcome),
    ensures
        ({
            let asked = persistence_option(device, slash, path);
            let ops = performed(
                all_persistence_steps(Some(asked), target_root),
                0,
                holds,
                outcome,
            );
            let source = "/run/persistence"@ + seq!['/'] + path;
            let bind = MountCallView {
                source: Some(source),
                target: target_root,
                fstype: None,
                flags: MS_BIND,
                data: None,
            };
            let first = seq![
                OpView::Log("Setting up persistence: "@ + asked),
                OpView::WaitForDevice { device, seconds: 10 },
                OpView::CreateDir("/run/persistence"@),
                OpView::Mount(persistent_device_call(device)),
            ];
            ops == if holds(CheckView::Exists(source)) {
                first + seq![
                    OpView::Log("Bind-mounting persistence from "@ + quoted(source)),
                    OpView::Mount(bind),
                ]
            } else {
                first + seq![
                    OpView::Log("Warning: persistence path "@ + quoted(source) + " not found"@),
                ]
            }
        }),
{
    let rest = if slash {
        seq!['/'] + path
    } else {
        path
    };
    let asked = persistence_option(device, slash, path);
    lemma_cut(device, ':', rest);
    assert(without_leading(rest, '/') =~= path);
    reveal_strlit("/run/persistence");
    lemma_joined("/run/persistence"@, path);
    assert("/run/persistence"@.last() == 'e');
    let source = "/run/persistence"@ + seq!['/'] + path;
    let bind = MountCallView {
        source: Some(source),
        target: target_root,
        fstype: None,
        flags: MS_BIND,
        data: None,
    };
    let steps = all_persistence_steps(Some(asked), target_root);
    assert(steps.len() == 9);
    assert(steps[0] == log("Setting up persistence: "@ + asked));
    assert(steps[1] == attempt(OpView::WaitForDevice { device, seconds: 10 }));
    assert(steps[2] == should(OpView::CreateDir("/run/persistence"@)));
    assert(steps[3] == must(
        OpView::Mount(persistent_device_call(device)),
        "Failed to mount persistence device"@,
    ));
    assert(steps[4] == if_holds(CheckView::Exists(source), 3));
    let found = OpView::Log("Bind-mounting persistence from "@ + quoted(source));
    let missing = OpView::Log("Warning: persistence path "@ + quoted(source) + " not found"@);
    assert(does(steps[5], found));
    assert(steps[6] == must(OpView::Mount(bind), "Failed to bind-mount persistence"@));
    assert(steps[7] == (StepView::Skip { skip: 1 }));
    assert(does(steps[8], missing));
    assert(performed(steps, 9, holds, outcome) == Seq::<OpView>::empty());
    assert(performed(steps, 8, holds, outcome) =~= seq![missing]);
    assert(performed(steps, 7, holds, outcome) == Seq::<OpView>::empty());
    assert(performed(steps, 6, holds, outcome) =~= seq![OpView::Mount(bind)]);
    assert(performed(steps, 5, holds, outcome) =~= seq![found, OpView::Mount(bind)]);
    let tail = performed(steps, 4, holds, outcome);
    assert(performed(steps, 3, holds, outcome) =~= seq![
        OpView::Mount(persistent_device_call(device)),
    ] + tail);
    assert(performed(steps, 2, holds, outcome) =~= seq![
        OpView::CreateDir("/run/persistence"@),
        OpView::Mount(persistent_device_call(device)),
    ] + tail);
    assert(performed(steps, 1, holds, outcome) =~= seq![
        OpView::WaitForDevice { device, seconds: 10 },
        OpView::CreateDir("/run/persistence"@),
        OpView::Mount(persistent_device_call(device)),
    ] + tail);
    assert(performed(steps, 0, holds, outcome) =~= seq![
        OpView::Log("Setting up persistence: "@ + asked),
        OpView::WaitForDevice { device, seconds: 10 },
        OpView::CreateDir("/run/persistence"@),
        OpView::Mount(persistent_device_call(device)),
    ] + tail);
}

/// Without a device, or without the option, there is no persistent storage:
/// nothing is done but a word said.
pub proof fn lemma_no_persistence(
    asked: Option<Seq<char>>,
    target_root: Seq<char>,
    holds: spec_fn(CheckView) -> bool,
    outcome: spec_fn(OpView) -> Outcome,
    op: OpView,
)
    requires
        asked matches Some(opt) ==> !opt.contains(':'),
        performed(all_persistence_steps(asked, target_root), 0, holds, outcome).contains(op),
    ensures
        asked is Some,
        op is Log,
{
    let steps = all_persistence_steps(asked, target_root);
    if asked is Some {
        lemma_cut(asked->0, ':', Seq::empty());
    }
    lemma_only_steps_are_performed(steps, 0, holds, outcome, op);
}

/// The image of a live system is copied below the target root: from where the
/// kernel command line says, else from `/run/iso`, and exactly where it is asked
/// for. It goes on without the copy.
pub proof fn lemma_image_in_memory(
    source: Option<Seq<char>>,
    target_root: Seq<char>,
    holds: spec_fn(CheckView) -> bool,
    outcome: spec_fn(OpView) -> Outcome,
)
    requires
        target_root.len() > 0 && target_root.last() != '/',
        outcome(OpView::CreateDir(target_root + seq!['/', 'i', 's', 'o'])) == Outcome::Done,
    ensures
        ({
            let steps = iso_steps(iso_source(source), target_root);
            let dest = target_root + seq!['/', 'i', 's', 'o'];
            let from = if source is Some {
                source->0
            } else {
                "/run/iso"@
            };
            &&& performed(steps, 0, holds, outcome) == seq![
                OpView::Log("Copying ISO to RAM..."@),
                OpView::CreateDir(dest),
                OpView::CopyTree { from, to: dest },
            ]
            &&& !script_fails(steps, 0, holds, outcome)
        }),
{
    reveal_strlit("iso");
    lemma_joined(target_root, "iso"@);
    let dest = target_root + seq!['/', 'i', 's', 'o'];
    assert(joined(target_root, "iso"@) =~= dest);
    let steps = iso_steps(iso_source(source), target_root);
    let from = if source is Some {
        source->0
    } else {
        "/run/iso"@
    };
    reveal_with_fuel(performed, 2);
    reveal_with_fuel(script_fails, 4);
    assert(performed(steps, 3, holds, outcome) == Seq::<OpView>::empty());
    assert(performed(steps, 2, holds, outcome) =~= seq![OpView::CopyTree { from, to: dest }]);
    assert(performed(steps, 1, holds, outcome) =~= seq![
        OpView::CreateDir(dest),
        OpView::CopyTree { from, to: dest },
    ]);
    assert(performed(steps, 0, holds, outcome) =~= seq![
        OpView::Log("Copying ISO to RAM..."@),
        OpView::CreateDir(dest),
        OpView::CopyTree { from, to: dest },
    ]);
    assert(!script_fails(steps, 3, holds, outcome));
    assert(!script_fails(steps, 2, holds, outcome));
    assert(!script_fails(steps, 1, holds, outcome));
}

/// It goes on without the image in memory, but not without a place for it.
pub proof fn lemma_vital_image(source: Seq<char>, target_root: Seq<char>)
    ensures
        vital_are(iso_steps(source, target_root), |op: OpView| op is CreateDir),
        exits_are_fine(iso_steps(source, target_root)),
{
    let steps = iso_steps(source, target_root);
    assert(steps.len() == 3);
}

/// Persistent storage that cannot be mounted or bound is an error; that its device
/// does not come up in time is none in itself.
pub proof fn lemma_vital_persistence(device: Seq<char>, path: Seq<char>, target_root: Seq<char>)
    ensures
        vital_are(
            persistence_steps(device, path, target_root),
            |op: OpView| op is CreateDir || op is Mount,
        ),
        exits_are_fine(persistence_steps(device, path, target_root)),
{
    let steps = persistence_steps(device, path, target_root);
    assert(steps.len() == 8);
}

/// What is said of the image fits what came of the copy.
pub proof fn lemma_words_on_the_image(source: Seq<char>, target_root: Seq<char>)
    ensures
        reaction(iso_steps(source, target_root)[2], Outcome::Done) == ReactionView::Log(
            "ISO copied to RAM"@,
        ),
        reaction(iso_steps(source, target_root)[2], Outcome::Failed) == ReactionView::LogError(
            "Warning: Failed to copy ISO to RAM: "@,
        ),
{
}

} // verus!
