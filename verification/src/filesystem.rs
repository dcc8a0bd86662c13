//! Mounting a filesystem of the configuration: its mount point, and the mount
//! itself.
use vstd::prelude::*;

use crate::fsinfo::FsInfo;
#[allow(unused_imports)]
use crate::fsinfo::FsInfoView;
use crate::mount::{FileKind, Mount};
#[allow(unused_imports)]
use crate::mount::{
    applied, filesystem_mount, is_bind, lemma_bind_then_options, lemma_ordinary_mount,
};
use crate::options::MountOptions;
#[allow(unused_imports)]
use crate::options::{mount_data, mount_flags, mountable};
use crate::paths::{path_parent, quote_path};
#[allow(unused_imports)]
use crate::paths::{parent, quoted};
use crate::script::{if_fails_step, log_step, must_step, no_steps, push_step, Check, Op, Step};
#[allow(unused_imports)]
use crate::script::{
    all_goes_well, does, exits_are_fine, if_fails, log, must, performed, reaction, vital_are,
    CheckView, MountCallView, OpView, Outcome, ReactionView, StepView,
};
use crate::text::{cat2, cat3, cat4};

verus! {

/// Whether a filesystem binds something that is no directory, and so needs a
/// file as its mount point.
pub open spec fn is_file_bind(e: FsInfoView, device_kind: Option<FileKind>) -> bool {
    is_bind(Some(e.fstype), e.options) && (device_kind matches Some(kind) && kind
        != FileKind::Directory)
}

/// The steps that create the directory above a file.
pub open spec fn parent_steps(path: Seq<char>) -> Seq<StepView> {
    match parent(path) {
        Some(dir) => seq![
            must(
                OpView::CreateDir(dir),
                "Failed to create parent of mountpoint: "@ + quoted(dir),
            ),
        ],
        None => Seq::empty(),
    }
}

/// The steps that create a mount point.
pub open spec fn mountpoint_steps(e: FsInfoView, device_kind: Option<FileKind>) -> Seq<StepView> {
    if is_file_bind(e, device_kind) {
        parent_steps(e.mountpoint) + seq![
            if_fails(CheckView::Exists(e.mountpoint), 1),
            must(
                OpView::WriteFile { path: e.mountpoint, content: ""@ },
                "Failed to create file mountpoint: "@ + quoted(e.mountpoint),
            ),
        ]
    } else {
        seq![
            must(
                OpView::CreateDir(e.mountpoint),
                "Failed to create mountpoint: "@ + quoted(e.mountpoint),
            ),
        ]
    }
}

/// The steps that go before the mount of a filesystem: it is announced, and its
/// mount point is created.
pub open spec fn filesystem_steps(e: FsInfoView, device_kind: Option<FileKind>) -> Seq<StepView> {
    seq![
        log("Mounting "@ + e.device + " ("@ + e.fstype + ") at "@ + quoted(e.mountpoint)),
    ] + mountpoint_steps(e, device_kind)
}

/// The steps that go before the mount of a filesystem, given what its device is.
pub fn mount_filesystem(e: &FsInfo, device_kind: Option<FileKind>) -> (r: Vec<Step>)
    ensures
        r.deep_view() == filesystem_steps(e.deep_view(), device_kind),
{
    let mut steps = no_steps();
    let at = quote_path(e.mountpoint.as_str());
    let head = cat4("Mounting ", e.device.as_str(), " (", e.fstype.as_str());
    let message = cat3(head.as_str(), ") at ", at.as_str());
    push_step(&mut steps, log_step(message.as_str()));
    let request = filesystem_request(e);
    let is_file = match device_kind {
        Some(kind) => kind != FileKind::Directory,
        None => false,
    };
    if request.is_bind_mount() && is_file {
        match path_parent(e.mountpoint.as_str()) {
            Some(dir) => {
                let context = cat2(
                    "Failed to create parent of mountpoint: ",
                    quote_path(dir.as_str()).as_str(),
                );
                push_step(&mut steps, must_step(Op::CreateDir(dir), context.as_str()));
            },
            None => {},
        }
        push_step(&mut steps, if_fails_step(Check::Exists(e.mountpoint.clone()), 1));
        let context = cat2("Failed to create file mountpoint: ", at.as_str());
        push_step(
            &mut steps,
            must_step(
                Op::WriteFile { path: e.mountpoint.clone(), content: "".to_owned() },
                context.as_str(),
            ),
        );
    } else {
        let context = cat2("Failed to create mountpoint: ", at.as_str());
        push_step(&mut steps, must_step(Op::CreateDir(e.mountpoint.clone()), context.as_str()));
    }
    assert(steps.deep_view() =~= filesystem_steps(e.deep_view(), device_kind));
    steps
}

/// What a mount asks for.
pub struct MountView {
    pub source: Seq<char>,
    pub target: Seq<char>,
    pub fstype: Option<Seq<char>>,
    pub options: Seq<Seq<char>>,
}

/// What the mount of a filesystem asks for.
pub open spec fn request_for(e: FsInfoView) -> MountView {
    MountView {
        source: e.device,
        target: e.mountpoint,
        fstype: Some(e.fstype),
        options: e.options,
    }
}

/// The mount of a filesystem.
pub fn filesystem_request<'a>(e: &'a FsInfo) -> (r: Mount<'a>)
    ensures
        request_for(e.deep_view()) == (MountView {
            source: r.source@,
            target: r.target@,
            fstype: r.fstype.deep_view(),
            options: r.options@,
        }),
{
    Mount::new(
        e.device.as_str(),
        e.mountpoint.as_str(),
        Some(e.fstype.as_str()),
        MountOptions::from_slice(&e.options),
    )
}

// ---------------------------------------------------------------------------
// Laws
// ---------------------------------------------------------------------------
/// An ordinary filesystem of the configuration is mounted from its device at its
/// mount point, as its type and with its options, by one call; a bind mount binds
/// its device to its mount point.
pub proof fn lemma_filesystem_as_configured(
    e: FsInfoView,
    kind: Option<FileKind>,
    holds: spec_fn(CheckView) -> bool,
    outcome: spec_fn(OpView) -> Outcome,
)
    requires
        e.fstype.len() > 0,
        e.fstype != "auto"@,
        kind != Some(FileKind::Regular),
        all_goes_well(outcome),
    ensures
        ({
            let m = request_for(e);
            let ordinary = applied(m.source, m.target, m.fstype, m.options, kind);
            let own = filesystem_mount(m.source, m.target, m.fstype, m.options);
            &&& ordinary is Mount
            &&& performed(ordinary->Mount_0, 0, holds, outcome) == seq![
                OpView::Mount(
                    MountCallView {
                        source: Some(e.device),
                        target: e.mountpoint,
                        fstype: Some(e.fstype),
                        flags: mount_flags(mountable(e.options)),
                        data: mount_data(mountable(e.options)),
                    },
                ),
            ]
            &&& e.options.contains("bind"@) ==> own is Steps && performed(
                own->Steps_0,
                0,
                holds,
                outcome,
            ).len() == 2 && performed(own->Steps_0, 0, holds, outcome)[0] is Mount && {
                let call = performed(own->Steps_0, 0, holds, outcome)[0]->Mount_0;
                call.source == Some(e.device) && call.target == e.mountpoint
            }
        }),
{
    lemma_ordinary_mount(
        e.device,
        e.mountpoint,
        e.fstype,
        e.options,
        kind,
        e.device,
        holds,
        outcome,
    );
    if e.options.contains("bind"@) {
        lemma_bind_then_options(e.device, e.mountpoint, e.fstype, e.options, holds, outcome);
    }
}

/// A mount point is a directory; only what binds something that is no directory
/// gets a file, which is created empty where nothing is there, and never emptied.
pub proof fn lemma_mountpoint(
    e: FsInfoView,
    device_kind: Option<FileKind>,
    holds: spec_fn(CheckView) -> bool,
    outcome: spec_fn(OpView) -> Outcome,
)
    requires
        parent(e.mountpoint) is Some,
        all_goes_well(outcome),
    ensures
        ({
            let ops = performed(filesystem_steps(e, device_kind), 0, holds, outcome);
            let binds = e.fstype == "bind"@ || e.options.contains("bind"@) || e.options.contains(
                "rbind"@,
            );
            let file = binds && device_kind is Some && device_kind != Some(FileKind::Directory);
            &&& ops.len() > 0 && ops[0] is Log
            &&& ops.skip(1) == if !file {
                seq![OpView::CreateDir(e.mountpoint)]
            } else if holds(CheckView::Exists(e.mountpoint)) {
                seq![OpView::CreateDir(parent(e.mountpoint)->0)]
            } else {
                seq![
                    OpView::CreateDir(parent(e.mountpoint)->0),
                    OpView::WriteFile { path: e.mountpoint, content: ""@ },
                ]
            }
        }),
{
    let steps = filesystem_steps(e, device_kind);
    let say = OpView::Log(
        "Mounting "@ + e.device + " ("@ + e.fstype + ") at "@ + quoted(e.mountpoint),
    );
    assert(does(steps[0], say));
    if is_file_bind(e, device_kind) {
        let above = OpView::CreateDir(parent(e.mountpoint)->0);
        let file = OpView::WriteFile { path: e.mountpoint, content: ""@ };
        assert(steps.len() == 4);
        assert(does(steps[1], above));
        assert(steps[2] == if_fails(CheckView::Exists(e.mountpoint), 1));
        assert(does(steps[3], file));
        let rest = if holds(CheckView::Exists(e.mountpoint)) {
            Seq::empty()
        } else {
            seq![file]
        };
        assert(performed(steps, 4, holds, outcome) == Seq::<OpView>::empty());
        assert(performed(steps, 3, holds, outcome) =~= seq![file]);
        assert(performed(steps, 2, holds, outcome) =~= rest);
        assert(performed(steps, 1, holds, outcome) =~= seq![above] + rest);
        assert(performed(steps, 0, holds, outcome) =~= seq![say, above] + rest);
        assert((seq![say, above] + rest).skip(1) =~= seq![above] + rest);
    } else {
        let make = OpView::CreateDir(e.mountpoint);
        assert(steps.len() == 2);
        assert(does(steps[1], make));
        assert(performed(steps, 2, holds, outcome) == Seq::<OpView>::empty());
        assert(performed(steps, 1, holds, outcome) =~= seq![make]);
        assert(performed(steps, 0, holds, outcome) =~= seq![say, make]);
        assert(seq![say, make].skip(1) =~= seq![make]);
    }
}

/// A mount point that cannot be created is an error.
pub proof fn lemma_vital_mountpoint(e: FsInfoView, kind: Option<FileKind>)
    ensures
        vital_are(filesystem_steps(e, kind), |op: OpView| !(op is Log)),
        exits_are_fine(filesystem_steps(e, kind)),
{
    let steps = filesystem_steps(e, kind);
}

/// The error of a mount point names it.
pub proof fn lemma_errors_of_mountpoints(e: FsInfoView)
    requires
        !is_bind(Some(e.fstype), e.options),
    ensures
        reaction(filesystem_steps(e, None)[1], Outcome::Failed) == ReactionView::Abort(
            "Failed to create mountpoint: "@ + quoted(e.mountpoint),
        ),
{
}

} // verus!
