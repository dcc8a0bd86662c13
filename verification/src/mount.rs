//! One mount: from what is asked for to the calls of mount(2) that bring it
//! about.
use vstd::prelude::*;

use crate::bcachefs::{mount_bcachefs, BcachefsMount};
use crate::flags::{ms_bind, ms_rdonly, ms_rec, ms_remount};
#[allow(unused_imports)]
use crate::flags::{MS_BIND, MS_RDONLY, MS_REC, MS_REMOUNT};
use crate::options::MountOptions;
#[allow(unused_imports)]
use crate::options::{lemma_read_only, mount_data, mount_flags, mountable};
use crate::paths::quote_path;
#[allow(unused_imports)]
use crate::paths::quoted;
use crate::script::{attempt_step, log_step, must_step, no_steps, push_step, MountCall, Op, Step};
#[allow(unused_imports)]
use crate::script::{
    all_goes_well, attempt, lemma_only_steps_are_performed, lemma_scripts_in_a_row, log, must,
    performed, reaction, script_stops, self_contained, vital_are, CheckView, MountCallView, OpView,
    Outcome, ReactionView, StepView,
};
use crate::text::{
    cat2, cat3, cat4, copy_texts, holds_text, join_texts, own_option, push_text, same_text,
    split_char, strip_prefix,
};
#[allow(unused_imports)]
use crate::text::{
    after_prefix, join, lemma_contains_push, lemma_prefix, lemma_split_of_join, lemma_take_next,
    split,
};

verus! {

/// What stands at a path, symbolic links followed.
#[derive(Debug, Clone, Copy, PartialEq, Eq, Structural)]
pub enum FileKind {
    Regular,
    Directory,
    BlockDevice,
    Other,
}

/// A mount that is asked for.
#[derive(Debug, PartialEq, Eq)]
pub struct Mount<'a> {
    pub source: &'a str,
    pub target: &'a str,
    pub fstype: Option<&'a str>,
    pub options: MountOptions,
}

/// How a mount goes on once it is known what its source is.
#[derive(Debug, PartialEq, Eq)]
pub enum Apply {
    /// Mount the source itself.
    Mount(Vec<Step>),
    /// Attach the source to a loop device first; where that fails, fail with its
    /// error under the message.
    Attach { steps: Vec<Step>, read_only: bool, context: String },
}

pub enum ApplyView {
    Mount(Seq<StepView>),
    Attach { steps: Seq<StepView>, read_only: bool, context: Seq<char> },
}

impl DeepView for Apply {
    type V = ApplyView;

    open spec fn deep_view(&self) -> ApplyView {
        match self {
            Apply::Mount(steps) => ApplyView::Mount(steps.deep_view()),
            Apply::Attach { steps, read_only, context } => ApplyView::Attach {
                steps: steps.deep_view(),
                read_only: *read_only,
                context: context@,
            },
        }
    }
}

/// How a filesystem of the configuration is mounted.
#[derive(Debug, PartialEq, Eq)]
pub enum FilesystemMount {
    /// The steps are all there is to do.
    Steps(Vec<Step>),
    /// The steps wait for the member devices; `mount.bcachefs` does the rest.
    Bcachefs { steps: Vec<Step>, mount: BcachefsMount },
    /// An ordinary mount of the source.
    Apply,
}

pub enum FilesystemMountView {
    Steps(Seq<StepView>),
    Bcachefs {
        steps: Seq<StepView>,
        device: Seq<char>,
        target: Seq<char>,
        options: Seq<Seq<char>>,
        timeout_secs: Option<u64>,
    },
    Apply,
}

impl DeepView for FilesystemMount {
    type V = FilesystemMountView;

    open spec fn deep_view(&self) -> FilesystemMountView {
        match self {
            FilesystemMount::Steps(steps) => FilesystemMountView::Steps(steps.deep_view()),
            FilesystemMount::Bcachefs { steps, mount } => FilesystemMountView::Bcachefs {
                steps: steps.deep_view(),
                device: mount.device@,
                target: mount.mountpoint@,
                options: mount.options.deep_view(),
                timeout_secs: mount.timeout_secs,
            },
            FilesystemMount::Apply => FilesystemMountView::Apply,
        }
    }
}

/// The filesystem type for mount(2): an empty one and `auto` leave the choice
/// to the kernel.
pub open spec fn effective_fstype(fstype: Option<Seq<char>>) -> Option<Seq<char>> {
    match fstype {
        Some(t) if t.len() > 0 && t != "auto"@ => Some(t),
        _ => None,
    }
}

/// The filesystem type as messages name it.
pub open spec fn fstype_name(fstype: Option<Seq<char>>) -> Seq<char> {
    match effective_fstype(fstype) {
        Some(t) => t,
        None => "auto"@,
    }
}

/// Whether a mount binds a directory or file that is there already.
pub open spec fn is_bind(fstype: Option<Seq<char>>, opts: Seq<Seq<char>>) -> bool {
    fstype == Some("bind"@) || opts.contains("bind"@) || opts.contains("rbind"@)
}

/// The call that mounts `source` with the given options.
pub open spec fn mount_call(
    source: Seq<char>,
    target: Seq<char>,
    fstype: Option<Seq<char>>,
    opts: Seq<Seq<char>>,
) -> MountCallView {
    MountCallView {
        source: Some(source),
        target,
        fstype: effective_fstype(fstype),
        flags: mount_flags(mountable(opts)),
        data: mount_data(mountable(opts)),
    }
}

/// The call that binds `source` to `target`.
pub open spec fn bind_call(
    source: Seq<char>,
    target: Seq<char>,
    opts: Seq<Seq<char>>,
) -> MountCallView {
    MountCallView {
        source: Some(source),
        target,
        fstype: None,
        flags: if opts.contains("rbind"@) {
            MS_BIND | MS_REC
        } else {
            MS_BIND
        },
        data: None,
    }
}

/// The call that gives a bind mount its options, which the binding call itself
/// ignores.
pub open spec fn remount_call(target: Seq<char>, opts: Seq<Seq<char>>) -> MountCallView {
    MountCallView {
        source: None,
        target,
        fstype: None,
        flags: MS_REMOUNT | MS_BIND | mount_flags(mountable(opts)),
        data: mount_data(mountable(opts)),
    }
}

/// The directory that an overlay option names for the kernel to write to.
pub open spec fn overlay_dir(opt: Seq<char>) -> Option<Seq<char>> {
    match after_prefix(opt, "upperdir="@) {
        Some(path) => Some(path),
        None => after_prefix(opt, "workdir="@),
    }
}

/// The steps that create the writable directories of an overlay.
pub open spec fn overlay_dir_steps(opts: Seq<Seq<char>>) -> Seq<StepView>
    decreases opts.len(),
{
    if opts.len() == 0 {
        Seq::empty()
    } else {
        let front = overlay_dir_steps(opts.drop_last());
        match overlay_dir(opts.last()) {
            Some(path) => front.push(attempt(OpView::CreateDir(path))),
            None => front,
        }
    }
}

/// The call that mounts an overlay.
pub open spec fn overlay_call(target: Seq<char>, opts: Seq<Seq<char>>) -> MountCallView {
    MountCallView {
        source: Some("overlay"@),
        target,
        fstype: Some("overlay"@),
        flags: 0,
        data: Some(join(mountable(opts), ","@)),
    }
}

/// The steps that wait for each member of a filesystem over several devices.
pub open spec fn member_steps(members: Seq<Seq<char>>) -> Seq<StepView>
    decreases members.len(),
{
    if members.len() == 0 {
        Seq::empty()
    } else {
        member_steps(members.drop_last()).push(
            attempt(OpView::WaitForDevice { device: members.last(), seconds: 30 }),
        )
    }
}

/// The steps that mount a loop device in place of the file that is attached to it.
pub open spec fn attached_steps(
    source: Seq<char>,
    target: Seq<char>,
    fstype: Option<Seq<char>>,
    opts: Seq<Seq<char>>,
    loop_device: Seq<char>,
) -> Seq<StepView> {
    seq![
        must(
            OpView::Mount(mount_call(loop_device, target, fstype, opts)),
            "Failed to mount "@ + source + " ("@ + fstype_name(fstype) + ") via "@ + loop_device
                + " at "@ + quoted(target),
        ),
    ]
}

impl<'a> Mount<'a> {
    pub fn new(
        source: &'a str,
        target: &'a str,
        fstype: Option<&'a str>,
        options: MountOptions,
    ) -> (r: Self)
        ensures
            r.source@ == source@,
            r.target@ == target@,
            r.fstype.deep_view() == fstype.deep_view(),
            r.options@ == options@,
    {
        Mount { source, target, fstype, options }
    }

    /// The path of the source.
    pub fn source_path(&self) -> (r: &str)
        ensures
            r@ == self.source@,
    {
        self.source
    }

    /// The filesystem type for mount(2).
    pub fn mount_fstype(&self) -> (r: Option<&str>)
        ensures
            r.deep_view() == effective_fstype(self.fstype.deep_view()),
    {
        match self.fstype {
            Some(t) => if !t.is_empty() && !same_text(t, "auto") {
                Some(t)
            } else {
                None
            },
            None => None,
        }
    }

    fn fstype_text(&self) -> (r: String)
        ensures
            r@ == fstype_name(self.fstype.deep_view()),
    {
        match self.mount_fstype() {
            Some(t) => t.to_owned(),
            None => "auto".to_owned(),
        }
    }

    /// Whether the source is a regular file, which only a loop device can
    /// mount.
    pub fn uses_loop_device(&self, source_kind: Option<FileKind>) -> (r: bool)
        ensures
            r == (source_kind == Some(FileKind::Regular)),
    {
        match source_kind {
            Some(kind) => kind == FileKind::Regular,
            None => false,
        }
    }

    /// Whether this binds a directory or file that is there already.
    pub fn is_bind_mount(&self) -> (r: bool)
        ensures
            r == is_bind(self.fstype.deep_view(), self.options@),
    {
        let by_type = match self.fstype {
            Some(t) => same_text(t, "bind"),
            None => false,
        };
        by_type || holds_text(&self.options.raw, "bind") || holds_text(&self.options.raw, "rbind")
    }

    /// Whether this binds what is mounted below as well.
    pub fn is_recursive_bind_mount(&self) -> (r: bool)
        ensures
            r == self.options@.contains("rbind"@),
    {
        holds_text(&self.options.raw, "rbind")
    }

    /// The call that mounts `source` in place of this mount's own source.
    pub fn mount_with_source(&self, source: &str, flags: u64, data: Option<String>) -> (r:
        MountCall)
        ensures
            r.deep_view() == (MountCallView {
                source: Some(source@),
                target: self.target@,
                fstype: effective_fstype(self.fstype.deep_view()),
                flags,
                data: data.deep_view(),
            }),
    {
        MountCall {
            source: Some(source.to_owned()),
            target: self.target.to_owned(),
            fstype: own_option(self.mount_fstype()),
            flags,
            data,
        }
    }

    /// The call that binds the source to the target.
    pub fn mount_bind(&self) -> (r: MountCall)
        ensures
            r.deep_view() == bind_call(self.source@, self.target@, self.options@),
    {
        let flags: u64 = if self.is_recursive_bind_mount() {
            ms_bind() | ms_rec()
        } else {
            ms_bind()
        };
        MountCall {
            source: Some(self.source.to_owned()),
            target: self.target.to_owned(),
            fstype: None,
            flags,
            data: None,
        }
    }

    /// The call that gives the bind mount its options.
    pub fn remount_bind(&self) -> (r: MountCall)
        ensures
            r.deep_view() == remount_call(self.target@, self.options@),
    {
        let (flags, data) = self.options.parse_for_mount();
        MountCall {
            source: None,
            target: self.target.to_owned(),
            fstype: None,
            flags: ms_remount() | ms_bind() | flags,
            data,
        }
    }

    /// The steps of an overlay: its writable directories are created where they
    /// are missing, then it is mounted.
    pub fn mount_overlay(&self) -> (r: Vec<Step>)
        ensures
            r.deep_view() == overlay_dir_steps(mountable(self.options@)).push(
                must(
                    OpView::Mount(overlay_call(self.target@, self.options@)),
                    "Failed to mount overlay at "@ + quoted(self.target@),
                ),
            ),
    {
        let filtered = self.options.raw_for_mount();
        let mut steps = no_steps();
        let mut texts: Vec<String> = Vec::new();
        let mut i: usize = 0;
        assert(texts.deep_view() =~= filtered.deep_view().take(0));
        while i < filtered.len()
            invariant
                i <= filtered@.len(),
                texts.deep_view() == filtered.deep_view().take(i as int),
                steps.deep_view() == overlay_dir_steps(filtered.deep_view().take(i as int)),
            decreases filtered.len() - i,
        {
            let opt = filtered[i];
            proof {
                lemma_take_next(filtered.deep_view(), i as int);
            }
            match strip_prefix(opt, "upperdir=") {
                Some(path) => {
                    push_step(&mut steps, attempt_step(Op::CreateDir(path)));
                },
                None => match strip_prefix(opt, "workdir=") {
                    Some(path) => {
                        push_step(&mut steps, attempt_step(Op::CreateDir(path)));
                    },
                    None => {},
                },
            }
            push_text(&mut texts, opt.to_owned());
            i = i + 1;
        }
        assert(filtered.deep_view().take(filtered@.len() as int) =~= filtered.deep_view());
        let call = MountCall {
            source: Some("overlay".to_owned()),
            target: self.target.to_owned(),
            fstype: Some("overlay".to_owned()),
            flags: 0,
            data: Some(join_texts(&texts, ",")),
        };
        let context = cat2("Failed to mount overlay at ", quote_path(self.target).as_str());
        push_step(&mut steps, must_step(Op::Mount(call), context.as_str()));
        steps
    }

    /// How this is mounted where it is a filesystem of the configuration.
    pub fn apply_filesystem(&self) -> (r: FilesystemMount)
        ensures
            r.deep_view() == filesystem_mount(
                self.source@,
                self.target@,
                self.fstype.deep_view(),
                self.options@,
            ),
    {
        if self.is_bind_mount() {
            let mut steps = no_steps();
            let quoted_target = quote_path(self.target);
            let context = cat4(
                "Failed to bind mount ",
                self.source,
                " to ",
                quoted_target.as_str(),
            );
            push_step(&mut steps, must_step(Op::Mount(self.mount_bind()), context.as_str()));
            let context = cat3(
                "Failed to remount ",
                quoted_target.as_str(),
                " with security options",
            );
            push_step(&mut steps, must_step(Op::Mount(self.remount_bind()), context.as_str()));
            proof {
                let opts = self.options@;
                let expected = filesystem_mount(
                    self.source@,
                    self.target@,
                    self.fstype.deep_view(),
                    opts,
                );
                assert(steps.deep_view() =~= expected->Steps_0);
            }
            return FilesystemMount::Steps(steps);
        }
        match self.fstype {
            Some(t) => if same_text(t, "zfs") {
                let mut steps = no_steps();
                let message = cat3("Skipping mount of ", t, " (handled by kernel)");
                push_step(&mut steps, log_step(message.as_str()));
                FilesystemMount::Steps(steps)
            } else if same_text(t, "bcachefs") {
                FilesystemMount::Bcachefs {
                    steps: wait_for_members(self.source),
                    mount: mount_bcachefs(
                        self.source,
                        self.target,
                        copy_texts(&self.options.raw),
                        Some(30),
                    ),
                }
            } else if same_text(t, "overlay") {
                FilesystemMount::Steps(self.mount_overlay())
            } else {
                FilesystemMount::Apply
            },
            None => FilesystemMount::Apply,
        }
    }

    /// How the mount goes on, given what its source is.
    pub fn apply(&self, source_kind: Option<FileKind>) -> (r: Apply)
        ensures
            r.deep_view() == applied(
                self.source@,
                self.target@,
                self.fstype.deep_view(),
                self.options@,
                source_kind,
            ),
    {
        let (flags, data) = self.options.parse_for_mount();
        let quoted_target = quote_path(self.target);
        let mut steps = no_steps();
        if self.uses_loop_device(source_kind) {
            let message = cat4(
                "Mounting regular file ",
                self.source,
                " via loop device at ",
                quoted_target.as_str(),
            );
            push_step(&mut steps, log_step(message.as_str()));
            return Apply::Attach {
                steps,
                read_only: flags & ms_rdonly() != 0,
                context: cat2("Failed to configure loop device for ", self.source),
            };
        }
        let head = cat4("Failed to mount ", self.source, " (", self.fstype_text().as_str());
        let context = cat3(head.as_str(), ") at ", quoted_target.as_str());
        let call = self.mount_with_source(self.source, flags, data);
        push_step(&mut steps, must_step(Op::Mount(call), context.as_str()));
        Apply::Mount(steps)
    }

    /// The steps that mount the loop device to which the source was attached.
    pub fn apply_attached(&self, loop_device: &str) -> (r: Vec<Step>)
        ensures
            r.deep_view() == attached_steps(
                self.source@,
                self.target@,
                self.fstype.deep_view(),
                self.options@,
                loop_device@,
            ),
    {
        let (flags, data) = self.options.parse_for_mount();
        let mut steps = no_steps();
        let head = cat4("Failed to mount ", self.source, " (", self.fstype_text().as_str());
        let middle = cat4(head.as_str(), ") via ", loop_device, " at ");
        let context = cat2(middle.as_str(), quote_path(self.target).as_str());
        let call = self.mount_with_source(loop_device, flags, data);
        push_step(&mut steps, must_step(Op::Mount(call), context.as_str()));
        assert(steps.deep_view() =~= attached_steps(
            self.source@,
            self.target@,
            self.fstype.deep_view(),
            self.options@,
            loop_device@,
        ));
        steps
    }
}

/// The steps that wait for each member device of a colon-separated list.
fn wait_for_members(source: &str) -> (r: Vec<Step>)
    ensures
        r.deep_view() == member_steps(split(source@, ':')),
{
    let members = split_char(source, ':');
    let mut steps = no_steps();
    let mut i: usize = 0;
    while i < members.len()
        invariant
            i <= members@.len(),
            steps.deep_view() == member_steps(members.deep_view().take(i as int)),
        decreases members.len() - i,
    {
        proof {
            lemma_take_next(members.deep_view(), i as int);
        }
        push_step(
            &mut steps,
            attempt_step(Op::WaitForDevice { device: members[i].clone(), seconds: 30 }),
        );
        i = i + 1;
    }
    assert(members.deep_view().take(members@.len() as int) =~= members.deep_view());
    steps
}

/// How a filesystem of the configuration is mounted. A bind mount is bound and
/// then given its options; zfs is left to the kernel; bcachefs and overlay have
/// ways of their own.
pub open spec fn filesystem_mount(
    source: Seq<char>,
    target: Seq<char>,
    fstype: Option<Seq<char>>,
    opts: Seq<Seq<char>>,
) -> FilesystemMountView {
    if is_bind(fstype, opts) {
        FilesystemMountView::Steps(
            seq![
                must(
                    OpView::Mount(bind_call(source, target, opts)),
                    "Failed to bind mount "@ + source + " to "@ + quoted(target),
                ),
                must(
                    OpView::Mount(remount_call(target, opts)),
                    "Failed to remount "@ + quoted(target) + " with security options"@,
                ),
            ],
        )
    } else if fstype == Some("zfs"@) {
        FilesystemMountView::Steps(
            seq![log("Skipping mount of "@ + "zfs"@ + " (handled by kernel)"@)],
        )
    } else if fstype == Some("bcachefs"@) {
        FilesystemMountView::Bcachefs {
            steps: member_steps(split(source, ':')),
            device: source,
            target,
            options: opts,
            timeout_secs: Some(30),
        }
    } else if fstype == Some("overlay"@) {
        FilesystemMountView::Steps(
            overlay_dir_steps(mountable(opts)).push(
                must(
                    OpView::Mount(overlay_call(target, opts)),
                    "Failed to mount overlay at "@ + quoted(target),
                ),
            ),
        )
    } else {
        FilesystemMountView::Apply
    }
}

/// How an ordinary mount goes on: a regular file is attached to a loop device,
/// read-only if the mount is; anything else is mounted as it is.
pub open spec fn applied(
    source: Seq<char>,
    target: Seq<char>,
    fstype: Option<Seq<char>>,
    opts: Seq<Seq<char>>,
    source_kind: Option<FileKind>,
) -> ApplyView {
    if source_kind == Some(FileKind::Regular) {
        ApplyView::Attach {
            steps: seq![
                log(
                    "Mounting regular file "@ + source + " via loop device at "@ + quoted(target),
                ),
            ],
            read_only: mount_flags(mountable(opts)) & MS_RDONLY != 0,
            context: "Failed to configure loop device for "@ + source,
        }
    } else {
        ApplyView::Mount(
            seq![
                must(
                    OpView::Mount(mount_call(source, target, fstype, opts)),
                    "Failed to mount "@ + source + " ("@ + fstype_name(fstype) + ") at "@ + quoted(
                        target,
                    ),
                ),
            ],
        )
    }
}

// ---------------------------------------------------------------------------
// Laws
// ---------------------------------------------------------------------------
/// A bind mount binds, and what is mounted below exactly where `rbind` asks for
/// it; its options follow in a call of their own.
pub proof fn lemma_bind_flags(
    source: Seq<char>,
    target: Seq<char>,
    fstype: Option<Seq<char>>,
    opts: Seq<Seq<char>>,
)
    requires
        is_bind(fstype, opts),
    ensures
        bind_call(source, target, opts).flags & MS_BIND != 0,
        bind_call(source, target, opts).flags & MS_REC != 0 <==> opts.contains("rbind"@),
        remount_call(target, opts).flags & MS_REMOUNT != 0,
        remount_call(target, opts).flags & MS_BIND != 0,
        filesystem_mount(source, target, fstype, opts) is Steps,
{
    let flags = mount_flags(mountable(opts));
    assert(0x1000u64 & 0x1000u64 != 0 && 0x1000u64 & 0x4000u64 == 0 && (0x1000u64 | 0x4000u64)
        & 0x1000u64 != 0 && (0x1000u64 | 0x4000u64) & 0x4000u64 != 0) by (bit_vector);
    assert((0x20u64 | 0x1000u64 | flags) & 0x20u64 != 0 && (0x20u64 | 0x1000u64 | flags) & 0x1000u64
        != 0) by (bit_vector);
}

/// A regular file is attached read-only exactly where `ro` is among the options
/// of its mount.
pub proof fn lemma_attached_read_only(
    source: Seq<char>,
    target: Seq<char>,
    fstype: Option<Seq<char>>,
    opts: Seq<Seq<char>>,
)
    ensures
        applied(source, target, fstype, opts, Some(FileKind::Regular)) matches ApplyView::Attach {
            read_only,
            ..
        } && (read_only <==> mountable(opts).contains("ro"@)),
{
    lemma_read_only(mountable(opts));
}

/// What is asked for is what the kernel is asked for, by one call: that source at
/// that target, as that type, with those options. A regular file is no such source;
/// the loop device that it is attached to takes its place, and nothing else changes.
pub proof fn lemma_ordinary_mount(
    source: Seq<char>,
    target: Seq<char>,
    fstype: Seq<char>,
    opts: Seq<Seq<char>>,
    kind: Option<FileKind>,
    loop_device: Seq<char>,
    holds: spec_fn(CheckView) -> bool,
    outcome: spec_fn(OpView) -> Outcome,
)
    requires
        fstype.len() > 0,
        fstype != "auto"@,
    ensures
        ({
            let call = |from: Seq<char>|
                OpView::Mount(
                    MountCallView {
                        source: Some(from),
                        target,
                        fstype: Some(fstype),
                        flags: mount_flags(mountable(opts)),
                        data: mount_data(mountable(opts)),
                    },
                );
            let work = applied(source, target, Some(fstype), opts, kind);
            let attached = attached_steps(source, target, Some(fstype), opts, loop_device);
            &&& work is Attach <==> kind == Some(FileKind::Regular)
            &&& work is Mount ==> performed(work->Mount_0, 0, holds, outcome) == seq![call(source)]
            &&& performed(attached, 0, holds, outcome) == seq![call(loop_device)]
        }),
{
    let work = applied(source, target, Some(fstype), opts, kind);
    let attached = attached_steps(source, target, Some(fstype), opts, loop_device);
    let first = OpView::Mount(mount_call(source, target, Some(fstype), opts));
    let second = OpView::Mount(mount_call(loop_device, target, Some(fstype), opts));
    if work is Mount {
        assert(performed(work->Mount_0, 1, holds, outcome) == Seq::<OpView>::empty());
        assert(performed(work->Mount_0, 0, holds, outcome) =~= seq![first]);
    }
    assert(performed(attached, 1, holds, outcome) == Seq::<OpView>::empty());
    assert(performed(attached, 0, holds, outcome) =~= seq![second]);
}

/// A type that is `auto`, empty or not given is left to the kernel to find out.
pub proof fn lemma_kernel_finds_type(fstype: Seq<char>)
    ensures
        effective_fstype(None) is None,
        effective_fstype(Some("auto"@)) is None,
        effective_fstype(Some(Seq::empty())) is None,
        fstype.len() > 0 && fstype != "auto"@ ==> effective_fstype(Some(fstype)) == Some(fstype),
{
}

/// A filesystem that binds something is bound first, with all that is mounted below
/// where `rbind` says so, and then given its options: the kernel ignores them when
/// it binds.
pub proof fn lemma_bind_then_options(
    source: Seq<char>,
    target: Seq<char>,
    fstype: Seq<char>,
    opts: Seq<Seq<char>>,
    holds: spec_fn(CheckView) -> bool,
    outcome: spec_fn(OpView) -> Outcome,
)
    requires
        fstype == "bind"@ || opts.contains("bind"@) || opts.contains("rbind"@),
        all_goes_well(outcome),
    ensures
        ({
            let work = filesystem_mount(source, target, Some(fstype), opts);
            &&& work is Steps
            &&& performed(work->Steps_0, 0, holds, outcome) == seq![
                OpView::Mount(
                    MountCallView {
                        source: Some(source),
                        target,
                        fstype: None,
                        flags: if opts.contains("rbind"@) {
                            MS_BIND | MS_REC
                        } else {
                            MS_BIND
                        },
                        data: None,
                    },
                ),
                OpView::Mount(
                    MountCallView {
                        source: None,
                        target,
                        fstype: None,
                        flags: MS_REMOUNT | MS_BIND | mount_flags(mountable(opts)),
                        data: mount_data(mountable(opts)),
                    },
                ),
            ]
        }),
{
    let steps = filesystem_mount(source, target, Some(fstype), opts)->Steps_0;
    let a = OpView::Mount(bind_call(source, target, opts));
    let b = OpView::Mount(remount_call(target, opts));
    assert(performed(steps, 2, holds, outcome) == Seq::<OpView>::empty());
    assert(performed(steps, 1, holds, outcome) =~= seq![b]);
    assert(performed(steps, 0, holds, outcome) =~= seq![a, b]);
}

/// Which filesystems are mounted in a way of their own: those that bind something,
/// zfs, bcachefs and overlay, and no others.
pub proof fn lemma_ways_of_their_own(
    source: Seq<char>,
    target: Seq<char>,
    fstype: Seq<char>,
    opts: Seq<Seq<char>>,
    holds: spec_fn(CheckView) -> bool,
    outcome: spec_fn(OpView) -> Outcome,
    op: OpView,
)
    requires
        !opts.contains("bind"@),
        !opts.contains("rbind"@),
        fstype != "bind"@,
    ensures
        ({
            let work = filesystem_mount(source, target, Some(fstype), opts);
            &&& work is Apply <==> fstype != "zfs"@ && fstype != "bcachefs"@ && fstype
                != "overlay"@
            &&& fstype == "zfs"@ && work is Steps && performed(
                work->Steps_0,
                0,
                holds,
                outcome,
            ).contains(op) ==> op is Log
            &&& fstype == "bcachefs"@ ==> work is Bcachefs && work->device == source && work->target
                == target && work->options == opts && work->timeout_secs == Some(30u64)
        }),
{
    lemma_types_differ();
    let work = filesystem_mount(source, target, Some(fstype), opts);
    if fstype == "zfs"@ && performed(work->Steps_0, 0, holds, outcome).contains(op) {
        lemma_only_steps_are_performed(work->Steps_0, 0, holds, outcome, op);
    }
}

proof fn lemma_types_differ()
    ensures
        "zfs"@ != "bcachefs"@,
        "zfs"@ != "overlay"@,
        "bcachefs"@ != "overlay"@,
{
    reveal_strlit("zfs");
    reveal_strlit("bcachefs");
    reveal_strlit("overlay");
    assert("zfs"@.len() == 3 && "bcachefs"@.len() == 8 && "overlay"@.len() == 7);
}

/// The last thing done for an overlay is to mount it, with all its options as data;
/// each directory that the kernel writes to is created before that.
pub proof fn lemma_overlay(
    source: Seq<char>,
    target: Seq<char>,
    opts: Seq<Seq<char>>,
    dir: Seq<char>,
    holds: spec_fn(CheckView) -> bool,
    outcome: spec_fn(OpView) -> Outcome,
)
    requires
        !opts.contains("bind"@),
        !opts.contains("rbind"@),
    ensures
        ({
            let work = filesystem_mount(source, target, Some("overlay"@), opts);
            let ops = performed(work->Steps_0, 0, holds, outcome);
            &&& work is Steps
            &&& ops.len() > 0
            &&& ops.last() == OpView::Mount(
                MountCallView {
                    source: Some("overlay"@),
                    target,
                    fstype: Some("overlay"@),
                    flags: 0,
                    data: Some(join(mountable(opts), ","@)),
                },
            )
            &&& mountable(opts).contains("upperdir="@ + dir) || mountable(opts).contains(
                "workdir="@ + dir,
            ) ==> ops.drop_last().contains(OpView::CreateDir(dir))
            &&& forall|i: int|
                0 <= i < ops.len() - 1 ==> (#[trigger] ops[i]) is CreateDir
        }),
{
    lemma_types_differ();
    reveal_strlit("overlay");
    reveal_strlit("bind");
    assert("overlay"@.len() == 7 && "bind"@.len() == 4);
    let given = mountable(opts);
    let dirs = overlay_dir_steps(given);
    let mount = must(
        OpView::Mount(overlay_call(target, opts)),
        "Failed to mount overlay at "@ + quoted(target),
    );
    let steps = filesystem_mount(source, target, Some("overlay"@), opts)->Steps_0;
    assert(steps =~= dirs + seq![mount]);
    lemma_overlay_dirs(given, dir, holds, outcome);
    lemma_scripts_in_a_row(dirs, seq![mount], 0, holds, outcome);
    assert(performed(seq![mount], 1, holds, outcome) == Seq::<OpView>::empty());
    assert(performed(seq![mount], 0, holds, outcome) =~= seq![
        OpView::Mount(overlay_call(target, opts)),
    ]);
    let ops = performed(steps, 0, holds, outcome);
    assert(ops.drop_last() =~= performed(dirs, 0, holds, outcome));
    assert forall|i: int| 0 <= i < ops.len() - 1 implies (#[trigger] ops[i]) is CreateDir by {
        assert(ops[i] == performed(dirs, 0, holds, outcome)[i]);
    }
}

proof fn lemma_overlay_dirs(
    opts: Seq<Seq<char>>,
    dir: Seq<char>,
    holds: spec_fn(CheckView) -> bool,
    outcome: spec_fn(OpView) -> Outcome,
)
    ensures
        ({
            let steps = overlay_dir_steps(opts);
            let ops = performed(steps, 0, holds, outcome);
            &&& self_contained(steps)
            &&& !script_stops(steps, 0, holds, outcome)
            &&& opts.contains("upperdir="@ + dir) || opts.contains("workdir="@ + dir)
                ==> ops.contains(OpView::CreateDir(dir))
            &&& forall|i: int| 0 <= i < ops.len() ==> (#[trigger] ops[i]) is CreateDir
        }),
    decreases opts.len(),
{
    if opts.len() > 0 {
        let front = opts.drop_last();
        lemma_overlay_dirs(front, dir, holds, outcome);
        lemma_prefix(opts.last(), "upperdir="@, dir);
        lemma_prefix(opts.last(), "workdir="@, dir);
        reveal_strlit("upperdir=");
        reveal_strlit("workdir=");
        assert("upperdir="@[0] == 'u' && "workdir="@[0] == 'w');
        assert(("workdir="@ + dir)[0] == 'w');
        if ("workdir="@ + dir).len() >= 9 {
            assert(("workdir="@ + dir).take(9)[0] == 'w');
        }
        let before = overlay_dir_steps(front);
        lemma_contains_push(front, opts.last(), "upperdir="@ + dir);
        lemma_contains_push(front, opts.last(), "workdir="@ + dir);
        assert(front.push(opts.last()) =~= opts);
        match overlay_dir(opts.last()) {
            Some(path) => {
                let last = seq![attempt(OpView::CreateDir(path))];
                assert(overlay_dir_steps(opts) =~= before + last);
                lemma_scripts_in_a_row(before, last, 0, holds, outcome);
                assert(performed(last, 1, holds, outcome) == Seq::<OpView>::empty());
                assert(performed(last, 0, holds, outcome) =~= seq![OpView::CreateDir(path)]);
                assert(!script_stops(last, 1, holds, outcome));
                assert(!script_stops(last, 0, holds, outcome));
                let a = performed(before, 0, holds, outcome);
                let ops = performed(overlay_dir_steps(opts), 0, holds, outcome);
                assert(ops =~= a.push(OpView::CreateDir(path)));
                if a.contains(OpView::CreateDir(dir)) {
                    let i = choose|i: int| 0 <= i < a.len() && a[i] == OpView::CreateDir(dir);
                    assert(ops[i] == OpView::CreateDir(dir));
                }
                assert(ops[ops.len() - 1] == OpView::CreateDir(path));
            },
            None => {},
        }
    }
}

/// Each member of a filesystem over several devices is waited for.
pub proof fn lemma_members_are_waited_for(
    members: Seq<Seq<char>>,
    holds: spec_fn(CheckView) -> bool,
    outcome: spec_fn(OpView) -> Outcome,
)
    ensures
        performed(member_steps(members), 0, holds, outcome) == members.map_values(
            |device: Seq<char>| OpView::WaitForDevice { device, seconds: 30 },
        ),
        self_contained(member_steps(members)),
        !script_stops(member_steps(members), 0, holds, outcome),
    decreases members.len(),
{
    let waits = members.map_values(
        |device: Seq<char>| OpView::WaitForDevice { device, seconds: 30 },
    );
    if members.len() > 0 {
        let before = member_steps(members.drop_last());
        lemma_members_are_waited_for(members.drop_last(), holds, outcome);
        let wait = OpView::WaitForDevice { device: members.last(), seconds: 30 };
        let last = seq![attempt(wait)];
        assert(member_steps(members) =~= before + last);
        lemma_scripts_in_a_row(before, last, 0, holds, outcome);
        assert(performed(last, 1, holds, outcome) == Seq::<OpView>::empty());
        assert(performed(last, 0, holds, outcome) =~= seq![wait]);
        assert(!script_stops(last, 1, holds, outcome));
        assert(!script_stops(last, 0, holds, outcome));
    }
    assert(performed(member_steps(members), 0, holds, outcome) =~= waits);
}

/// The members of bcachefs are the devices between the colons of its source.
pub proof fn lemma_members_of_bcachefs(
    members: Seq<Seq<char>>,
    target: Seq<char>,
    opts: Seq<Seq<char>>,
    holds: spec_fn(CheckView) -> bool,
    outcome: spec_fn(OpView) -> Outcome,
)
    requires
        members.len() > 0,
        forall|i: int| 0 <= i < members.len() ==> !(#[trigger] members[i]).contains(':'),
        !opts.contains("bind"@),
        !opts.contains("rbind"@),
    ensures
        ({
            let source = join(members, seq![':']);
            let work = filesystem_mount(source, target, Some("bcachefs"@), opts);
            &&& work is Bcachefs
            &&& performed(work->Bcachefs_steps, 0, holds, outcome) == members.map_values(
                |device: Seq<char>| OpView::WaitForDevice { device, seconds: 30 },
            )
        }),
{
    lemma_types_differ();
    reveal_strlit("bcachefs");
    reveal_strlit("bind");
    assert("bcachefs"@.len() == 8 && "bind"@.len() == 4);
    lemma_split_of_join(members, ':');
    lemma_members_are_waited_for(members, holds, outcome);
}

/// A mount that cannot be made is an error, be it the first or the second call of a
/// bind mount.
pub proof fn lemma_vital_mounts(
    source: Seq<char>,
    target: Seq<char>,
    fstype: Option<Seq<char>>,
    opts: Seq<Seq<char>>,
    kind: Option<FileKind>,
    loop_device: Seq<char>,
)
    ensures
        ({
            let ordinary = applied(source, target, fstype, opts, kind);
            let own = filesystem_mount(source, target, fstype, opts);
            &&& ordinary is Mount ==> vital_are(ordinary->Mount_0, |op: OpView| op is Mount)
            &&& own is Steps ==> vital_are(own->Steps_0, |op: OpView| op is Mount)
            &&& vital_are(
                attached_steps(source, target, fstype, opts, loop_device),
                |op: OpView| op is Mount,
            )
        }),
{
    lemma_overlay_dirs_are_tried(mountable(opts));
}

proof fn lemma_overlay_dirs_are_tried(opts: Seq<Seq<char>>)
    ensures
        forall|i: int|
            0 <= i < overlay_dir_steps(opts).len() ==> (#[trigger] overlay_dir_steps(opts)[i])
                is Do && overlay_dir_steps(opts)[i]->Do_op is CreateDir && !reaction(
                overlay_dir_steps(opts)[i],
                Outcome::Failed,
            ).fails(),
    decreases opts.len(),
{
    if opts.len() > 0 {
        lemma_overlay_dirs_are_tried(opts.drop_last());
    }
}

/// The error of a mount names what was to be mounted, and where.
pub proof fn lemma_errors_of_mounts(
    source: Seq<char>,
    target: Seq<char>,
    fstype: Option<Seq<char>>,
    opts: Seq<Seq<char>>,
    loop_device: Seq<char>,
)
    ensures
        ({
            let plain = applied(source, target, fstype, opts, None)->Mount_0[0];
            let file = applied(source, target, fstype, opts, Some(FileKind::Regular));
            let attached = attached_steps(source, target, fstype, opts, loop_device)[0];
            let own = filesystem_mount(source, target, fstype, opts);
            let named = match effective_fstype(fstype) {
                Some(t) => t,
                None => "auto"@,
            };
            &&& reaction(plain, Outcome::Failed) == ReactionView::Abort(
                "Failed to mount "@ + source + " ("@ + named + ") at "@ + quoted(target),
            )
            &&& reaction(attached, Outcome::Failed) == ReactionView::Abort(
                "Failed to mount "@ + source + " ("@ + named + ") via "@ + loop_device + " at "@
                    + quoted(target),
            )
            &&& file->context == "Failed to configure loop device for "@ + source
            &&& is_bind(fstype, opts) ==> {
                &&& reaction(own->Steps_0[0], Outcome::Failed) == ReactionView::Abort(
                    "Failed to bind mount "@ + source + " to "@ + quoted(target),
                )
                &&& reaction(own->Steps_0[1], Outcome::Failed) == ReactionView::Abort(
                    "Failed to remount "@ + quoted(target) + " with security options"@,
                )
            }
            &&& !is_bind(fstype, opts) && fstype == Some("overlay"@) ==> reaction(
                own->Steps_0.last(),
                Outcome::Failed,
            ) == ReactionView::Abort("Failed to mount overlay at "@ + quoted(target))
        }),
{
    lemma_types_differ();
}

} // verus!
