//! The filesystems of the configuration: how they are listed, which are checked,
//! and where they are mounted.
use vstd::prelude::*;

use crate::paths::{is_root_path, join_path, quote_path, strip_root};
#[allow(unused_imports)]
use crate::paths::{
    drop_leading_blanks, drop_trailing_blanks, from_root, is_absolute, is_blank, is_root, joined,
    lemma_from_root, lemma_joined, named, quoted,
};
use crate::script::{no_steps, push_step, Op, Response, Step};
#[allow(unused_imports)]
use crate::script::{
    lemma_nothing_stops, performed, reaction, script_fails, CheckView, OpView, Outcome,
    ReactionView, ResponseView, StepView,
};
use crate::text::{
    cat2, cat3, copy_option, copy_texts, join_texts, push_text, same_text, split_char,
    split_lines, starts_with_char, strip_prefix,
};
#[allow(unused_imports)]
use crate::text::{
    after_prefix, has_prefix, join, lemma_join_of_split, lemma_prefix, lemma_split_behind,
    lemma_split_of_join, lemma_take_next, lines, split, without_carriage_return,
};

verus! {

/// A filesystem of the configuration.
#[derive(Debug, PartialEq, Eq)]
pub struct FsInfo {
    pub device: String,
    pub mountpoint: String,
    pub fstype: String,
    pub options: Vec<String>,
}

pub struct FsInfoView {
    pub device: Seq<char>,
    pub mountpoint: Seq<char>,
    pub fstype: Seq<char>,
    pub options: Seq<Seq<char>>,
}

impl DeepView for FsInfo {
    type V = FsInfoView;

    open spec fn deep_view(&self) -> FsInfoView {
        FsInfoView {
            device: self.device@,
            mountpoint: self.mountpoint@,
            fstype: self.fstype@,
            options: self.options.deep_view(),
        }
    }
}

/// Appends an entry to a list.
fn push_entry(v: &mut Vec<FsInfo>, e: FsInfo)
    ensures
        final(v).deep_view() == old(v).deep_view().push(e.deep_view()),
{
    let ghost before = v.deep_view();
    v.push(e);
    assert(v.deep_view() =~= before.push(e.deep_view()));
}

// ---------------------------------------------------------------------------
// The list of filesystems
// ---------------------------------------------------------------------------
/// The options of a comma-separated list; none where the list is empty.
pub open spec fn listed_options(line: Seq<char>) -> Seq<Seq<char>> {
    if line.len() == 0 {
        Seq::empty()
    } else {
        split(line, ',')
    }
}

/// The entries of a list of filesystems: four lines each, with mount point,
/// device, type and options. The list ends where the mount point is empty or
/// lines are missing.
pub open spec fn fs_entries(ls: Seq<Seq<char>>) -> Seq<FsInfoView>
    decreases ls.len(),
{
    if ls.len() < 4 || ls[0].len() == 0 {
        Seq::empty()
    } else {
        seq![
            FsInfoView {
                device: ls[1],
                mountpoint: ls[0],
                fstype: ls[2],
                options: listed_options(ls[3]),
            },
        ] + fs_entries(ls.skip(4))
    }
}

/// The list of filesystems that is read.
pub open spec fn list_to_read(path: Option<Seq<char>>, there: bool) -> Option<Seq<char>> {
    if there {
        path
    } else {
        None
    }
}

/// The filesystems that a text lists.
pub open spec fn listed_in(content: Option<Seq<char>>) -> Seq<FsInfoView> {
    match content {
        Some(text) => fs_entries(lines(text)),
        None => Seq::empty(),
    }
}

/// The list of filesystems that is read, given whether the one that is set is
/// there.
pub fn fs_info_file(path: &Option<String>, there: bool) -> (r: Option<String>)
    ensures
        r.deep_view() == list_to_read(path.deep_view(), there),
{
    if there {
        copy_option(path)
    } else {
        None
    }
}

/// The filesystems that a text lists; none where there is no text.
pub fn parse_fs_info(content: Option<&str>) -> (r: Vec<FsInfo>)
    ensures
        r.deep_view() == listed_in(content.deep_view()),
{
    let mut out: Vec<FsInfo> = Vec::new();
    assert(out.deep_view() =~= Seq::empty());
    let text = match content {
        Some(text) => text,
        None => {
            return out;
        },
    };
    let ls = split_lines(text);
    let ghost all = ls.deep_view();
    let n = ls.len();
    let mut i: usize = 0;
    assert(all.skip(0) =~= all);
    assert(out.deep_view() + fs_entries(all.skip(0)) =~= fs_entries(all));
    while n - i >= 4 && !ls[i].as_str().is_empty()
        invariant
            n == ls@.len(),
            all == ls.deep_view(),
            i <= n,
            out.deep_view() + fs_entries(all.skip(i as int)) == fs_entries(all),
        decreases n - i,
    {
        let options: Vec<String> = if ls[i + 3].as_str().is_empty() {
            Vec::new()
        } else {
            split_char(ls[i + 3].as_str(), ',')
        };
        let entry = FsInfo {
            device: ls[i + 1].clone(),
            mountpoint: ls[i].clone(),
            fstype: ls[i + 2].clone(),
            options,
        };
        proof {
            let rest = all.skip(i as int);
            assert(rest[0] == ls@[i as int]@ && rest[1] == ls@[i + 1]@ && rest[2] == ls@[i + 2]@
                && rest[3] == ls@[i + 3]@);
            assert(options.deep_view() =~= listed_options(rest[3]));
            assert(rest.skip(4) =~= all.skip(i + 4));
            assert(out.deep_view() + fs_entries(rest) =~= out.deep_view().push(entry.deep_view())
                + fs_entries(all.skip(i + 4)));
        }
        push_entry(&mut out, entry);
        i = i + 4;
    }
    proof {
        let rest = all.skip(i as int);
        if n - i >= 4 {
            assert(rest[0] == ls@[i as int]@);
        }
        assert(fs_entries(rest) =~= Seq::empty());
        assert(out.deep_view() =~= fs_entries(all));
    }
    out
}

// ---------------------------------------------------------------------------
// Checks
// ---------------------------------------------------------------------------
/// Filesystems without a journal, which are always checked.
pub open spec fn is_unjournaled(fstype: Seq<char>) -> bool {
    ||| fstype == "ext2"@
    ||| fstype == "vfat"@
    ||| fstype == "msdos"@
    ||| fstype == "ntfs"@
}

/// Filesystems whose journal makes a check an expensive way to do nothing.
pub open spec fn is_journaled(fstype: Seq<char>) -> bool {
    ||| fstype == "ext3"@
    ||| fstype == "ext4"@
    ||| fstype == "reiserfs"@
    ||| fstype == "xfs"@
    ||| fstype == "jfs"@
    ||| fstype == "f2fs"@
}

/// Whether a filesystem is checked before it is mounted. Filesystems that heal
/// themselves, that cannot be checked and that are not known never are.
pub open spec fn is_checked(fstype: Seq<char>, check_journaling: bool) -> bool {
    is_unjournaled(fstype) || is_journaled(fstype) && check_journaling
}

/// Whether a filesystem is checked before it is mounted.
pub fn needs_fsck(fstype: &str, check_journaling: bool) -> (r: bool)
    ensures
        r == is_checked(fstype@, check_journaling),
{
    if same_text(fstype, "ext2") || same_text(fstype, "vfat") || same_text(fstype, "msdos")
        || same_text(fstype, "ntfs") {
        true
    } else if same_text(fstype, "ext3") || same_text(fstype, "ext4") || same_text(
        fstype,
        "reiserfs",
    ) || same_text(fstype, "xfs") || same_text(fstype, "jfs") || same_text(fstype, "f2fs") {
        check_journaling
    } else {
        false
    }
}

// ---------------------------------------------------------------------------
// Mount points below the target root
// ---------------------------------------------------------------------------
/// A mount point moved below the target root.
pub open spec fn below_root(target_root: Seq<char>, mountpoint: Seq<char>) -> Seq<char> {
    joined(
        target_root,
        if is_absolute(mountpoint) {
            from_root(mountpoint)
        } else {
            mountpoint
        },
    )
}

/// A path of an overlay option moved below the target root; a relative one
/// stays.
pub open spec fn overlay_path(target_root: Seq<char>, path: Seq<char>) -> Seq<char> {
    if is_absolute(path) {
        target_root + path
    } else {
        path
    }
}

/// Each path of a colon-separated list moved below the target root.
pub open spec fn overlay_paths(target_root: Seq<char>, list: Seq<char>) -> Seq<char> {
    let paths = split(list, ':');
    join(Seq::new(paths.len(), |i: int| overlay_path(target_root, paths[i])), ":"@)
}

/// An option of an overlay with its directories moved below the target root.
pub open spec fn overlay_option(target_root: Seq<char>, opt: Seq<char>) -> Seq<char> {
    match after_prefix(opt, "lowerdir="@) {
        Some(list) => "lowerdir="@ + overlay_paths(target_root, list),
        None => match after_prefix(opt, "upperdir="@) {
            Some(list) => "upperdir="@ + overlay_paths(target_root, list),
            None => match after_prefix(opt, "workdir="@) {
                Some(list) => "workdir="@ + overlay_paths(target_root, list),
                None => opt,
            },
        },
    }
}

/// A filesystem moved below the target root.
pub open spec fn adjusted(target_root: Seq<char>, e: FsInfoView) -> FsInfoView {
    FsInfoView {
        device: e.device,
        mountpoint: below_root(target_root, e.mountpoint),
        fstype: e.fstype,
        options: if e.fstype == "overlay"@ {
            Seq::new(e.options.len(), |i: int| overlay_option(target_root, e.options[i]))
        } else {
            e.options
        },
    }
}

/// The filesystems besides the root filesystem, each moved below the target
/// root, in order.
pub open spec fn additional(target_root: Seq<char>, entries: Seq<FsInfoView>) -> Seq<FsInfoView>
    decreases entries.len(),
{
    if entries.len() == 0 {
        Seq::empty()
    } else {
        let front = additional(target_root, entries.drop_last());
        if is_root(entries.last().mountpoint) {
            front
        } else {
            front.push(adjusted(target_root, entries.last()))
        }
    }
}

fn move_overlay_paths(target_root: &str, list: &str) -> (r: String)
    ensures
        r@ == overlay_paths(target_root@, list@),
{
    let paths = split_char(list, ':');
    let ghost all = paths.deep_view();
    let ghost moved = Seq::new(all.len(), |i: int| overlay_path(target_root@, all[i]));
    let mut out: Vec<String> = Vec::new();
    let mut i: usize = 0;
    assert(out.deep_view() =~= moved.take(0));
    while i < paths.len()
        invariant
            i <= paths@.len(),
            all == paths.deep_view(),
            moved == Seq::new(all.len(), |i: int| overlay_path(target_root@, all[i])),
            out.deep_view() == moved.take(i as int),
        decreases paths.len() - i,
    {
        let path = paths[i].as_str();
        let piece = if starts_with_char(path, '/') {
            cat2(target_root, path)
        } else {
            path.to_owned()
        };
        assert(all[i as int] == path@);
        push_text(&mut out, piece);
        assert(moved.take(i + 1) =~= moved.take(i as int).push(moved[i as int]));
        i = i + 1;
    }
    assert(moved.take(all.len() as int) =~= moved);
    join_texts(&out, ":")
}

fn move_overlay_option(target_root: &str, opt: &str) -> (r: String)
    ensures
        r@ == overlay_option(target_root@, opt@),
{
    match strip_prefix(opt, "lowerdir=") {
        Some(list) => cat2("lowerdir=", move_overlay_paths(target_root, list.as_str()).as_str()),
        None => match strip_prefix(opt, "upperdir=") {
            Some(list) => cat2(
                "upperdir=",
                move_overlay_paths(target_root, list.as_str()).as_str(),
            ),
            None => match strip_prefix(opt, "workdir=") {
                Some(list) => cat2(
                    "workdir=",
                    move_overlay_paths(target_root, list.as_str()).as_str(),
                ),
                None => opt.to_owned(),
            },
        },
    }
}

fn adjust(target_root: &str, e: &FsInfo) -> (r: FsInfo)
    ensures
        r.deep_view() == adjusted(target_root@, e.deep_view()),
{
    let mountpoint = if starts_with_char(e.mountpoint.as_str(), '/') {
        join_path(target_root, strip_root(e.mountpoint.as_str()).as_str())
    } else {
        join_path(target_root, e.mountpoint.as_str())
    };
    let options = if same_text(e.fstype.as_str(), "overlay") {
        let mut out: Vec<String> = Vec::new();
        let ghost all = e.options.deep_view();
        let ghost moved = Seq::new(all.len(), |i: int| overlay_option(target_root@, all[i]));
        let mut i: usize = 0;
        assert(out.deep_view() =~= moved.take(0));
        while i < e.options.len()
            invariant
                i <= e.options@.len(),
                all == e.options.deep_view(),
                moved == Seq::new(all.len(), |i: int| overlay_option(target_root@, all[i])),
                out.deep_view() == moved.take(i as int),
            decreases e.options.len() - i,
        {
            assert(all[i as int] == e.options@[i as int]@);
            push_text(&mut out, move_overlay_option(target_root, e.options[i].as_str()));
            assert(moved.take(i + 1) =~= moved.take(i as int).push(moved[i as int]));
            i = i + 1;
        }
        assert(moved.take(all.len() as int) =~= moved);
        out
    } else {
        copy_texts(&e.options)
    };
    let r = FsInfo { device: e.device.clone(), mountpoint, fstype: e.fstype.clone(), options };
    assert(r.deep_view().options =~= adjusted(target_root@, e.deep_view()).options);
    r
}

/// The step that mounts a filesystem. One that cannot be mounted is warned about.
pub open spec fn mount_step(e: FsInfoView) -> StepView {
    StepView::Do {
        op: OpView::MountFilesystem {
            device: e.device,
            mountpoint: e.mountpoint,
            fstype: e.fstype,
            options: e.options,
        },
        success: ResponseView::Continue,
        exit: ResponseView::Continue,
        failure: ResponseView::LogCauses(
            "Warning: failed to mount "@ + quoted(e.mountpoint) + ": "@,
        ),
    }
}

fn mounting(e: FsInfo) -> (r: Step)
    ensures
        r.deep_view() == mount_step(e.deep_view()),
{
    let warning = cat3(
        "Warning: failed to mount ",
        quote_path(e.mountpoint.as_str()).as_str(),
        ": ",
    );
    Step::Do {
        op: Op::MountFilesystem {
            device: e.device,
            mountpoint: e.mountpoint,
            fstype: e.fstype,
            options: e.options,
        },
        success: Response::Continue,
        exit: Response::Continue,
        failure: Response::LogCauses(warning),
    }
}

/// The steps that mount the filesystems besides the root filesystem.
pub open spec fn additional_steps(
    target_root: Seq<char>,
    entries: Seq<FsInfoView>,
) -> Seq<StepView> {
    additional(target_root, entries).map_values(|e: FsInfoView| mount_step(e))
}

/// Mounts the filesystems besides the root filesystem, each moved below the
/// target root.
pub fn mount_additional_filesystems(fs_infos: &Vec<FsInfo>, target_root: &str) -> (r: Vec<Step>)
    ensures
        r.deep_view() == additional_steps(target_root@, fs_infos.deep_view()),
{
    let ghost step = |e: FsInfoView| mount_step(e);
    let mut steps = no_steps();
    let mut i: usize = 0;
    assert(steps.deep_view() =~= additional(
        target_root@,
        fs_infos.deep_view().take(0),
    ).map_values(step));
    while i < fs_infos.len()
        invariant
            i <= fs_infos@.len(),
            step == (|e: FsInfoView| mount_step(e)),
            steps.deep_view() == additional(
                target_root@,
                fs_infos.deep_view().take(i as int),
            ).map_values(step),
        decreases fs_infos.len() - i,
    {
        let ghost front = additional(target_root@, fs_infos.deep_view().take(i as int));
        proof {
            lemma_take_next(fs_infos.deep_view(), i as int);
        }
        if !is_root_path(fs_infos[i].mountpoint.as_str()) {
            let e = adjust(target_root, &fs_infos[i]);
            let ghost moved = e.deep_view();
            push_step(&mut steps, mounting(e));
            assert(steps.deep_view() =~= front.push(moved).map_values(step));
        }
        i = i + 1;
    }
    assert(fs_infos.deep_view().take(fs_infos@.len() as int) =~= fs_infos.deep_view());
    steps
}

/// The filesystems besides the root filesystem that are checked, in order.
pub open spec fn to_check(entries: Seq<FsInfoView>, check_journaling: bool) -> Seq<FsInfoView>
    decreases entries.len(),
{
    if entries.len() == 0 {
        Seq::empty()
    } else {
        let front = to_check(entries.drop_last(), check_journaling);
        let e = entries.last();
        if !is_root(e.mountpoint) && is_checked(e.fstype, check_journaling) {
            front.push(e)
        } else {
            front
        }
    }
}

/// The step that checks a filesystem. A check that fails is warned about.
pub open spec fn check_step(e: FsInfoView) -> StepView {
    StepView::Do {
        op: OpView::CheckFilesystem { device: e.device, fstype: e.fstype },
        success: ResponseView::Continue,
        exit: ResponseView::Continue,
        failure: ResponseView::LogCauses("Warning: fsck failed on "@ + e.device + ": "@),
    }
}

fn checking(e: &FsInfo) -> (r: Step)
    ensures
        r.deep_view() == check_step(e.deep_view()),
{
    Step::Do {
        op: Op::CheckFilesystem { device: e.device.clone(), fstype: e.fstype.clone() },
        success: Response::Continue,
        exit: Response::Continue,
        failure: Response::LogCauses(cat3("Warning: fsck failed on ", e.device.as_str(), ": ")),
    }
}

/// The steps that check the filesystems besides the root filesystem.
pub open spec fn check_steps(entries: Seq<FsInfoView>, check_journaling: bool) -> Seq<StepView> {
    to_check(entries, check_journaling).map_values(|e: FsInfoView| check_step(e))
}

/// Checks the filesystems besides the root filesystem that are to be checked.
pub fn check_additional_filesystems(fs_infos: &Vec<FsInfo>, check_journaling: bool) -> (r:
    Vec<Step>)
    ensures
        r.deep_view() == check_steps(fs_infos.deep_view(), check_journaling),
{
    let ghost step = |e: FsInfoView| check_step(e);
    let mut steps = no_steps();
    let mut i: usize = 0;
    assert(steps.deep_view() =~= to_check(
        fs_infos.deep_view().take(0),
        check_journaling,
    ).map_values(step));
    while i < fs_infos.len()
        invariant
            i <= fs_infos@.len(),
            step == (|e: FsInfoView| check_step(e)),
            steps.deep_view() == to_check(
                fs_infos.deep_view().take(i as int),
                check_journaling,
            ).map_values(step),
        decreases fs_infos.len() - i,
    {
        let ghost front = to_check(fs_infos.deep_view().take(i as int), check_journaling);
        proof {
            lemma_take_next(fs_infos.deep_view(), i as int);
        }
        let e = &fs_infos[i];
        if !is_root_path(e.mountpoint.as_str()) && needs_fsck(e.fstype.as_str(), check_journaling) {
            push_step(&mut steps, checking(e));
            assert(steps.deep_view() =~= front.push(e.deep_view()).map_values(step));
        }
        i = i + 1;
    }
    assert(fs_infos.deep_view().take(fs_infos@.len() as int) =~= fs_infos.deep_view());
    steps
}

// ---------------------------------------------------------------------------
// Laws
// ---------------------------------------------------------------------------
/// The four lines of an entry.
pub open spec fn entry_lines(e: FsInfoView) -> Seq<Seq<char>> {
    seq![e.mountpoint, e.device, e.fstype, join(e.options, ","@)]
}

/// The lines of a list of entries.
pub open spec fn list_lines(entries: Seq<FsInfoView>) -> Seq<Seq<char>>
    decreases entries.len(),
{
    if entries.len() == 0 {
        Seq::empty()
    } else {
        entry_lines(entries[0]) + list_lines(entries.skip(1))
    }
}

/// A list of entries as text: each line with its ending.
pub open spec fn list_text(entries: Seq<FsInfoView>) -> Seq<char> {
    if entries.len() == 0 {
        Seq::empty()
    } else {
        join(list_lines(entries), seq!['\n']).push('\n')
    }
}

/// Whether a text can stand on a line of its own: it holds no line break and no
/// carriage return at its end.
pub open spec fn fits_line(s: Seq<char>) -> bool {
    !s.contains('\n') && (s.len() > 0 ==> s.last() != '\r')
}

/// Whether an entry can be listed: it has a mount point, its texts fit on lines,
/// its options hold no commas and are not a single empty one.
pub open spec fn listable(e: FsInfoView) -> bool {
    &&& e.mountpoint.len() > 0
    &&& fits_line(e.mountpoint)
    &&& fits_line(e.device)
    &&& fits_line(e.fstype)
    &&& fits_line(join(e.options, ","@))
    &&& forall|i: int| 0 <= i < e.options.len() ==> !(#[trigger] e.options[i]).contains(',')
    &&& e.options != seq![Seq::<char>::empty()]
}

proof fn lemma_options_come_back(options: Seq<Seq<char>>)
    requires
        forall|i: int| 0 <= i < options.len() ==> !(#[trigger] options[i]).contains(','),
        options != seq![Seq::<char>::empty()],
    ensures
        listed_options(join(options, ","@)) == options,
{
    reveal_strlit(",");
    assert(","@ =~= seq![',']);
    let line = join(options, ","@);
    if options.len() == 0 {
        assert(options =~= Seq::empty());
    } else {
        lemma_split_of_join(options, ',');
        if line.len() == 0 {
            if options.len() == 1 {
                assert(options[0] =~= Seq::empty());
                assert(options =~= seq![Seq::<char>::empty()]);
            }
        }
    }
}

proof fn lemma_list_lines_fit(entries: Seq<FsInfoView>)
    requires
        forall|i: int| 0 <= i < entries.len() ==> listable(#[trigger] entries[i]),
    ensures
        list_lines(entries).len() == 4 * entries.len(),
        forall|i: int|
            0 <= i < list_lines(entries).len() ==> fits_line(#[trigger] list_lines(entries)[i]),
        fs_entries(list_lines(entries)) == entries,
    decreases entries.len(),
{
    let ls = list_lines(entries);
    if entries.len() == 0 {
        assert(entries =~= Seq::empty());
    } else {
        let rest = entries.skip(1);
        assert forall|i: int| 0 <= i < rest.len() implies listable(#[trigger] rest[i]) by {
            assert(rest[i] == entries[i + 1]);
        }
        lemma_list_lines_fit(rest);
        let e = entries[0];
        assert(listable(e));
        assert(ls.skip(4) =~= list_lines(rest));
        assert(ls[0] == e.mountpoint && ls[1] == e.device && ls[2] == e.fstype && ls[3] == join(
            e.options,
            ","@,
        ));
        lemma_options_come_back(e.options);
        assert(fs_entries(ls) =~= seq![e] + rest);
        assert(seq![e] + rest =~= entries);
        assert forall|i: int| 0 <= i < ls.len() implies fits_line(#[trigger] ls[i]) by {
            if i >= 4 {
                assert(ls[i] == list_lines(rest)[i - 4]);
            }
        }
    }
}

proof fn lemma_lines_of_joined(ls: Seq<Seq<char>>)
    requires
        ls.len() > 0,
        forall|i: int| 0 <= i < ls.len() ==> fits_line(#[trigger] ls[i]),
    ensures
        lines(join(ls, seq!['\n']).push('\n')) == ls,
{
    assert forall|i: int| 0 <= i < ls.len() implies !(#[trigger] ls[i]).contains('\n') by {
        assert(fits_line(ls[i]));
    }
    lemma_split_of_join(ls, '\n');
    let text = join(ls, seq!['\n']);
    let whole = text.push('\n');
    assert(whole.drop_last() =~= text);
    let pieces = split(whole, '\n');
    assert(pieces =~= ls.push(Seq::empty()));
    assert forall|i: int| 0 <= i < ls.len() implies without_carriage_return(pieces[i])
        == #[trigger] ls[i] by {
        assert(pieces[i] == ls[i]);
        assert(fits_line(ls[i]));
    }
    assert(lines(whole) =~= ls);
}

/// Reading a list of filesystems gives back what was written in it.
pub proof fn lemma_list_round_trip(entries: Seq<FsInfoView>)
    requires
        forall|i: int| 0 <= i < entries.len() ==> listable(#[trigger] entries[i]),
    ensures
        fs_entries(lines(list_text(entries))) == entries,
{
    lemma_list_lines_fit(entries);
    if entries.len() == 0 {
        let p = split(Seq::empty(), '\n');
        assert(p =~= seq![Seq::empty()]);
        assert(lines(Seq::empty()) =~= Seq::empty());
        assert(entries =~= Seq::empty());
    } else {
        lemma_lines_of_joined(list_lines(entries));
    }
}

proof fn lemma_from_root_is_relative(p: Seq<char>)
    ensures
        !is_absolute(from_root(p)),
{
    lemma_join_of_split(p, '/');
    let leading = drop_leading_blanks(split(p, '/'));
    let pieces = drop_trailing_blanks(leading, 0);
    lemma_leading(split(p, '/'));
    lemma_trailing(leading);
    if pieces.len() > 0 {
        reveal_strlit("/");
        let first = pieces[0];
        assert(first.len() > 0 && !first.contains('/'));
        assert(first[0] != '/');
        lemma_join_begins(pieces, "/"@);
    }
}

proof fn lemma_leading(pieces: Seq<Seq<char>>)
    ensures
        drop_leading_blanks(pieces).len() <= pieces.len(),
        drop_leading_blanks(pieces) == pieces.skip(
            pieces.len() - drop_leading_blanks(pieces).len(),
        ),
        drop_leading_blanks(pieces).len() > 0 ==> !is_blank(drop_leading_blanks(pieces)[0]),
    decreases pieces.len(),
{
    if pieces.len() > 0 && is_blank(pieces[0]) {
        lemma_leading(pieces.skip(1));
        let rest = drop_leading_blanks(pieces.skip(1));
        assert(pieces.skip(1).skip(pieces.len() - 1 - rest.len()) =~= pieces.skip(
            pieces.len() - rest.len(),
        ));
    } else {
        assert(pieces.skip(0) =~= pieces);
    }
}

proof fn lemma_trailing(pieces: Seq<Seq<char>>)
    ensures
        drop_trailing_blanks(pieces, 0).len() <= pieces.len(),
        drop_trailing_blanks(pieces, 0) == pieces.take(
            drop_trailing_blanks(pieces, 0).len() as int,
        ),
    decreases pieces.len(),
{
    if pieces.len() > 0 && is_blank(pieces.last()) {
        lemma_trailing(pieces.drop_last());
        let rest = drop_trailing_blanks(pieces.drop_last(), 0);
        assert(pieces.drop_last().take(rest.len() as int) =~= pieces.take(rest.len() as int));
    } else {
        assert(pieces.take(pieces.len() as int) =~= pieces);
    }
}

proof fn lemma_join_begins(pieces: Seq<Seq<char>>, sep: Seq<char>)
    requires
        pieces.len() > 0,
        pieces[0].len() > 0,
    ensures
        join(pieces, sep).len() > 0,
        join(pieces, sep)[0] == pieces[0][0],
    decreases pieces.len(),
{
    if pieces.len() > 1 {
        lemma_join_begins(pieces.drop_last(), sep);
    }
}

/// Every mount point, however it is written, is moved below the target root.
pub proof fn lemma_below_root(target_root: Seq<char>, mountpoint: Seq<char>)
    ensures
        has_prefix(below_root(target_root, mountpoint), target_root),
{
    lemma_from_root_is_relative(mountpoint);
    assert(below_root(target_root, mountpoint).take(target_root.len() as int) =~= target_root);
}

/// Nothing is mounted over the root filesystem again: what is left to mount lies
/// below the target root, and there is no more of it than of the entries.
pub proof fn lemma_additional_below_root(target_root: Seq<char>, entries: Seq<FsInfoView>)
    ensures
        additional(target_root, entries).len() <= entries.len(),
        forall|i: int|
            0 <= i < additional(target_root, entries).len() ==> has_prefix(
                (#[trigger] additional(target_root, entries)[i]).mountpoint,
                target_root,
            ),
    decreases entries.len(),
{
    if entries.len() > 0 {
        lemma_additional_below_root(target_root, entries.drop_last());
        lemma_below_root(target_root, entries.last().mountpoint);
    }
}

/// Filesystems that heal themselves, that no program checks, or whose type is not
/// known beforehand.
pub open spec fn is_never_checked(fstype: Seq<char>) -> bool {
    ||| fstype == "btrfs"@
    ||| fstype == "zfs"@
    ||| fstype == "bcachefs"@
    ||| fstype == "iso9660"@
    ||| fstype == "udf"@
    ||| fstype == "apfs"@
    ||| fstype == "nilfs2"@
    ||| fstype == "squashfs"@
    ||| fstype == "erofs"@
    ||| fstype == "auto"@
}

/// A filesystem without a journal is always checked, one with a journal exactly
/// where that is asked for, and one that heals itself or cannot be checked
/// never.
pub proof fn lemma_check_rules(fstype: Seq<char>, check_journaling: bool)
    ensures
        is_unjournaled(fstype) ==> is_checked(fstype, check_journaling),
        is_journaled(fstype) ==> is_checked(fstype, check_journaling) == check_journaling,
        is_never_checked(fstype) ==> !is_checked(fstype, check_journaling),
{
    reveal_strlit("ext2");
    reveal_strlit("vfat");
    reveal_strlit("msdos");
    reveal_strlit("ntfs");
    reveal_strlit("ext3");
    reveal_strlit("ext4");
    reveal_strlit("reiserfs");
    reveal_strlit("xfs");
    reveal_strlit("jfs");
    reveal_strlit("f2fs");
    reveal_strlit("btrfs");
    reveal_strlit("zfs");
    reveal_strlit("bcachefs");
    reveal_strlit("iso9660");
    reveal_strlit("udf");
    reveal_strlit("apfs");
    reveal_strlit("nilfs2");
    reveal_strlit("squashfs");
    reveal_strlit("erofs");
    reveal_strlit("auto");
    assert("ext2"@.len() == 4);
    assert("vfat"@.len() == 4);
    assert("msdos"@.len() == 5);
    assert("ntfs"@.len() == 4);
    assert("ext3"@.len() == 4);
    assert("ext4"@.len() == 4);
    assert("reiserfs"@.len() == 8);
    assert("xfs"@.len() == 3);
    assert("jfs"@.len() == 3);
    assert("f2fs"@.len() == 4);
    assert("btrfs"@.len() == 5);
    assert("zfs"@.len() == 3);
    assert("bcachefs"@.len() == 8);
    assert("iso9660"@.len() == 7);
    assert("udf"@.len() == 3);
    assert("apfs"@.len() == 4);
    assert("nilfs2"@.len() == 6);
    assert("squashfs"@.len() == 8);
    assert("erofs"@.len() == 5);
    assert("auto"@.len() == 4);
    assert("apfs"@[0] == 'a');
    assert("auto"@[0] == 'a');
    assert("bcachefs"@[0] == 'b');
    assert("btrfs"@[0] == 'b');
    assert("erofs"@[0] == 'e');
    assert("ext2"@[0] == 'e');
    assert("ext2"@[3] == '2');
    assert("ext3"@[0] == 'e');
    assert("ext3"@[3] == '3');
    assert("ext4"@[0] == 'e');
    assert("ext4"@[3] == '4');
    assert("f2fs"@[0] == 'f');
    assert("jfs"@[0] == 'j');
    assert("msdos"@[0] == 'm');
    assert("ntfs"@[0] == 'n');
    assert("reiserfs"@[0] == 'r');
    assert("squashfs"@[0] == 's');
    assert("udf"@[0] == 'u');
    assert("vfat"@[0] == 'v');
    assert("xfs"@[0] == 'x');
    assert("zfs"@[0] == 'z');
}

/// What the list that is set says is what is read; without one, or where it is not
/// there, there are no filesystems.
pub proof fn lemma_list_is_read(path: Seq<char>, entries: Seq<FsInfoView>)
    requires
        forall|i: int| 0 <= i < entries.len() ==> listable(#[trigger] entries[i]),
    ensures
        list_to_read(Some(path), true) == Some(path),
        list_to_read(Some(path), false) is None,
        list_to_read(None, true) is None,
        listed_in(Some(list_text(entries))) == entries,
        listed_in(None) == Seq::<FsInfoView>::empty(),
{
    lemma_list_round_trip(entries);
}

/// Which filesystems are checked before they are mounted: those without a journal
/// always, those with one where that is asked for, and no others.
pub proof fn lemma_which_types_are_checked(fstype: Seq<char>)
    ensures
        is_checked(fstype, false) <==> {
            ||| fstype == "ext2"@
            ||| fstype == "vfat"@
            ||| fstype == "msdos"@
            ||| fstype == "ntfs"@
        },
        is_checked(fstype, true) <==> {
            ||| is_checked(fstype, false)
            ||| fstype == "ext3"@
            ||| fstype == "ext4"@
            ||| fstype == "reiserfs"@
            ||| fstype == "xfs"@
            ||| fstype == "jfs"@
            ||| fstype == "f2fs"@
        },
{
}

/// A mount point keeps its path, below the target root.
pub proof fn lemma_same_path_below_root(target_root: Seq<char>, path: Seq<char>)
    requires
        target_root.len() > 0 && target_root.last() != '/',
        !is_blank(split(path, '/')[0]),
        !is_blank(split(path, '/').last()),
    ensures
        below_root(target_root, seq!['/'] + path) == target_root + seq!['/'] + path,
        below_root(target_root, path) == target_root + seq!['/'] + path,
{
    lemma_from_root(path);
    lemma_from_root_is_relative(path);
    lemma_joined(target_root, path);
}

/// The filesystems of a list are mounted one behind the other: what is mounted for
/// two lists in a row is what is mounted for the one and then for the other.
pub proof fn lemma_mounted_in_order(
    target_root: Seq<char>,
    a: Seq<FsInfoView>,
    b: Seq<FsInfoView>,
)
    ensures
        additional(target_root, a + b) == additional(target_root, a) + additional(target_root, b),
    decreases b.len(),
{
    if b.len() == 0 {
        assert(a + b =~= a);
        assert(additional(target_root, a) + additional(target_root, b) =~= additional(
            target_root,
            a,
        ));
    } else {
        lemma_mounted_in_order(target_root, a, b.drop_last());
        assert((a + b).drop_last() =~= a + b.drop_last());
        assert((a + b).last() == b.last());
        assert(additional(target_root, a + b) =~= additional(target_root, a) + additional(
            target_root,
            b,
        ));
    }
}

/// The same holds of the checks.
pub proof fn lemma_checked_in_order(
    a: Seq<FsInfoView>,
    b: Seq<FsInfoView>,
    check_journaling: bool,
)
    ensures
        to_check(a + b, check_journaling) == to_check(a, check_journaling) + to_check(
            b,
            check_journaling,
        ),
    decreases b.len(),
{
    if b.len() == 0 {
        assert(a + b =~= a);
        assert(to_check(a, check_journaling) + to_check(b, check_journaling) =~= to_check(
            a,
            check_journaling,
        ));
    } else {
        lemma_checked_in_order(a, b.drop_last(), check_journaling);
        assert((a + b).drop_last() =~= a + b.drop_last());
        assert((a + b).last() == b.last());
        assert(to_check(a + b, check_journaling) =~= to_check(a, check_journaling) + to_check(
            b,
            check_journaling,
        ));
    }
}

/// Every filesystem of the list but the root filesystem is mounted: from its device,
/// at its own path below the target root, as its type and, unless it is an overlay,
/// with its options as they are. That others cannot be mounted does not keep it from
/// being mounted.
pub proof fn lemma_every_filesystem_is_mounted(
    target_root: Seq<char>,
    before: Seq<FsInfoView>,
    e: FsInfoView,
    behind: Seq<FsInfoView>,
    path: Seq<char>,
    holds: spec_fn(CheckView) -> bool,
    outcome: spec_fn(OpView) -> Outcome,
)
    requires
        target_root.len() > 0 && target_root.last() != '/',
        e.mountpoint == seq!['/'] + path,
        !is_blank(split(path, '/')[0]),
        !is_blank(split(path, '/').last()),
        e.fstype != "overlay"@,
    ensures
        ({
            let steps = additional_steps(target_root, before + seq![e] + behind);
            let mount = OpView::MountFilesystem {
                device: e.device,
                mountpoint: target_root + e.mountpoint,
                fstype: e.fstype,
                options: e.options,
            };
            &&& performed(steps, 0, holds, outcome).contains(mount)
            &&& !script_fails(steps, 0, holds, outcome)
        }),
{
    let steps = additional_steps(target_root, before + seq![e] + behind);
    let entries = additional(target_root, before + seq![e] + behind);
    lemma_mounted_in_order(target_root, before + seq![e], behind);
    lemma_mounted_in_order(target_root, before, seq![e]);
    lemma_same_path_below_root(target_root, path);
    assert(target_root + seq!['/'] + path =~= target_root + e.mountpoint);
    lemma_names_of_path(path);
    assert(seq![e].drop_last() =~= Seq::empty());
    reveal_with_fuel(additional, 2);
    assert(additional(target_root, seq![e]) =~= seq![adjusted(target_root, e)]);
    let k = additional(target_root, before).len() as int;
    assert(entries[k] == adjusted(target_root, e));
    lemma_mount_steps_go_on(entries, outcome);
    lemma_nothing_stops(steps, 0, holds, outcome);
    let ops = performed(steps, 0, holds, outcome);
    assert(steps[k] == mount_step(entries[k]));
    assert(ops[k] == steps[0 + k]->Do_op);
}

proof fn lemma_names_of_path(path: Seq<char>)
    requires
        !is_blank(split(path, '/').last()),
    ensures
        !is_root(seq!['/'] + path),
{
    lemma_split_behind('/', path);
    lemma_join_of_split(path, '/');
    let pieces = split(seq!['/'] + path, '/');
    assert(pieces.last() == split(path, '/').last());
    assert(named(pieces).len() > 0);
}

proof fn lemma_mount_steps_go_on(entries: Seq<FsInfoView>, outcome: spec_fn(OpView) -> Outcome)
    ensures
        ({
            let steps = entries.map_values(|e: FsInfoView| mount_step(e));
            forall|i: int|
                0 <= i < steps.len() ==> (#[trigger] steps[i]) is Do && !reaction(
                    steps[i],
                    outcome(steps[i]->Do_op),
                ).stops()
        }),
{
    let steps = entries.map_values(|e: FsInfoView| mount_step(e));
    assert forall|i: int| 0 <= i < steps.len() implies (#[trigger] steps[i]) is Do && !reaction(
        steps[i],
        outcome(steps[i]->Do_op),
    ).stops() by {
        assert(steps[i] == mount_step(entries[i]));
    }
}

/// The root filesystem is not mounted again.
pub proof fn lemma_root_is_left_out(target_root: Seq<char>, e: FsInfoView)
    requires
        is_root(e.mountpoint),
    ensures
        additional(target_root, seq![e]) == Seq::<FsInfoView>::empty(),
{
    assert(seq![e].drop_last() =~= Seq::empty());
    reveal_with_fuel(additional, 2);
}

/// A filesystem that is to be checked is, by its device and as its type, unless it
/// is the root filesystem. What another check comes to does not keep it from that.
pub proof fn lemma_every_filesystem_is_checked(
    before: Seq<FsInfoView>,
    e: FsInfoView,
    behind: Seq<FsInfoView>,
    check_journaling: bool,
    holds: spec_fn(CheckView) -> bool,
    outcome: spec_fn(OpView) -> Outcome,
)
    ensures
        ({
            let steps = check_steps(before + seq![e] + behind, check_journaling);
            let check = OpView::CheckFilesystem { device: e.device, fstype: e.fstype };
            &&& !is_root(e.mountpoint) && is_checked(e.fstype, check_journaling) ==> performed(
                steps,
                0,
                holds,
                outcome,
            ).contains(check)
            &&& is_root(e.mountpoint) || !is_checked(e.fstype, check_journaling) ==> steps
                == check_steps(before + behind, check_journaling)
            &&& !script_fails(steps, 0, holds, outcome)
        }),
{
    let entries = to_check(before + seq![e] + behind, check_journaling);
    let steps = check_steps(before + seq![e] + behind, check_journaling);
    lemma_checked_in_order(before + seq![e], behind, check_journaling);
    lemma_checked_in_order(before, seq![e], check_journaling);
    lemma_checked_in_order(before, behind, check_journaling);
    assert(seq![e].drop_last() =~= Seq::empty());
    reveal_with_fuel(to_check, 2);
    assert forall|i: int| 0 <= i < steps.len() implies (#[trigger] steps[i]) is Do && !reaction(
        steps[i],
        outcome(steps[i]->Do_op),
    ).stops() by {
        assert(steps[i] == check_step(entries[i]));
    }
    lemma_nothing_stops(steps, 0, holds, outcome);
    if !is_root(e.mountpoint) && is_checked(e.fstype, check_journaling) {
        assert(to_check(seq![e], check_journaling) =~= seq![e]);
        let k = to_check(before, check_journaling).len() as int;
        assert(entries[k] == e);
        assert(steps[k] == check_step(e));
        let ops = performed(steps, 0, holds, outcome);
        assert(ops[k] == steps[0 + k]->Do_op);
    } else {
        assert(to_check(seq![e], check_journaling) =~= Seq::empty());
        assert(entries =~= to_check(before + behind, check_journaling));
    }
}

/// The directories of an overlay move along with it: each absolute path of its
/// options gets the target root before it, and everything else stays as it is.
pub proof fn lemma_overlay_directories(
    target_root: Seq<char>,
    paths: Seq<Seq<char>>,
    opt: Seq<char>,
)
    requires
        paths.len() > 0,
        forall|i: int| 0 <= i < paths.len() ==> !(#[trigger] paths[i]).contains(':'),
    ensures
        ({
            let list = join(paths, seq![':']);
            let moved = join(
                Seq::new(
                    paths.len(),
                    |i: int|
                        if paths[i].len() > 0 && paths[i][0] == '/' {
                            target_root + paths[i]
                        } else {
                            paths[i]
                        },
                ),
                seq![':'],
            );
            &&& overlay_option(target_root, "lowerdir="@ + list) == "lowerdir="@ + moved
            &&& overlay_option(target_root, "upperdir="@ + list) == "upperdir="@ + moved
            &&& overlay_option(target_root, "workdir="@ + list) == "workdir="@ + moved
            &&& !has_prefix(opt, "lowerdir="@) && !has_prefix(opt, "upperdir="@) && !has_prefix(
                opt,
                "workdir="@,
            ) ==> overlay_option(target_root, opt) == opt
        }),
{
    reveal_strlit(":");
    assert(":"@ =~= seq![':']);
    let list = join(paths, seq![':']);
    lemma_split_of_join(paths, ':');
    let moved = Seq::new(
        paths.len(),
        |i: int|
            if paths[i].len() > 0 && paths[i][0] == '/' {
                target_root + paths[i]
            } else {
                paths[i]
            },
    );
    assert(Seq::new(paths.len(), |i: int| overlay_path(target_root, paths[i])) =~= moved);
    lemma_prefix(opt, "lowerdir="@, list);
    lemma_prefix(opt, "upperdir="@, list);
    lemma_prefix(opt, "workdir="@, list);
    reveal_strlit("lowerdir=");
    reveal_strlit("upperdir=");
    reveal_strlit("workdir=");
    assert("lowerdir="@[0] == 'l' && "upperdir="@[0] == 'u' && "workdir="@[0] == 'w');
    assert(("upperdir="@ + list).take(9)[0] == 'u');
    if ("workdir="@ + list).len() >= 9 {
        assert(("workdir="@ + list).take(9)[0] == 'w');
    }
}

/// Each option of an overlay is moved on its own, and the overlay keeps its device
/// and its type.
pub proof fn lemma_overlay_keeps_the_rest(target_root: Seq<char>, e: FsInfoView, i: int)
    requires
        e.fstype == "overlay"@,
        0 <= i < e.options.len(),
    ensures
        ({
            let moved = adjusted(target_root, e);
            &&& moved.device == e.device
            &&& moved.fstype == e.fstype
            &&& moved.options.len() == e.options.len()
            &&& moved.options[i] == overlay_option(target_root, e.options[i])
        }),
{
}

/// What is said of a filesystem that cannot be mounted or checked names it, and goes
/// on with the error and its causes.
pub proof fn lemma_words_on_filesystems(e: FsInfoView)
    ensures
        reaction(mount_step(e), Outcome::Failed) == ReactionView::LogCauses(
            "Warning: failed to mount "@ + quoted(e.mountpoint) + ": "@,
        ),
        reaction(check_step(e), Outcome::Failed) == ReactionView::LogCauses(
            "Warning: fsck failed on "@ + e.device + ": "@,
        ),
{
}

} // verus!
