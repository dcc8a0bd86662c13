//! Mount options: which become flags of mount(2), which are dropped, and which
//! are handed to the filesystem.
use vstd::prelude::*;

use crate::flags::{
    ms_bind, ms_dirsync, ms_lazytime, ms_noatime, ms_nodev, ms_nodiratime, ms_noexec, ms_nosuid,
    ms_rdonly, ms_rec, ms_relatime, ms_remount, ms_silent, ms_strictatime, ms_synchronous,
};
#[allow(unused_imports)]
use crate::flags::{
    MS_BIND, MS_DIRSYNC, MS_LAZYTIME, MS_NOATIME, MS_NODEV, MS_NODIRATIME, MS_NOEXEC, MS_NOSUID,
    MS_RDONLY, MS_REC, MS_RELATIME, MS_REMOUNT, MS_SILENT, MS_STRICTATIME, MS_SYNCHRONOUS,
};
use crate::text::{copy_texts, join_texts, push_text, same_text, split_char, starts_with};
#[allow(unused_imports)]
use crate::text::{
    has_prefix, join, lemma_contains_push, lemma_split_of_join, lemma_take_next, non_empty, split,
};

verus! {

/// The flags that an option stands for; none for an option that is no flag.
pub open spec fn option_flags(opt: Seq<char>) -> u64 {
    if opt == "ro"@ {
        MS_RDONLY
    } else if opt == "nosuid"@ {
        MS_NOSUID
    } else if opt == "nodev"@ {
        MS_NODEV
    } else if opt == "noexec"@ {
        MS_NOEXEC
    } else if opt == "sync"@ {
        MS_SYNCHRONOUS
    } else if opt == "noatime"@ {
        MS_NOATIME
    } else if opt == "nodiratime"@ {
        MS_NODIRATIME
    } else if opt == "relatime"@ {
        MS_RELATIME
    } else if opt == "strictatime"@ {
        MS_STRICTATIME
    } else if opt == "lazytime"@ {
        MS_LAZYTIME
    } else if opt == "bind"@ {
        MS_BIND
    } else if opt == "rbind"@ {
        MS_BIND | MS_REC
    } else if opt == "remount"@ {
        MS_REMOUNT
    } else if opt == "silent"@ {
        MS_SILENT
    } else if opt == "dirsync"@ {
        MS_DIRSYNC
    } else {
        0
    }
}

/// Whether an option is one of those that become flags.
pub open spec fn is_flag(opt: Seq<char>) -> bool {
    ||| opt == "ro"@
    ||| opt == "nosuid"@
    ||| opt == "nodev"@
    ||| opt == "noexec"@
    ||| opt == "sync"@
    ||| opt == "noatime"@
    ||| opt == "nodiratime"@
    ||| opt == "relatime"@
    ||| opt == "strictatime"@
    ||| opt == "lazytime"@
    ||| opt == "bind"@
    ||| opt == "rbind"@
    ||| opt == "remount"@
    ||| opt == "silent"@
    ||| opt == "dirsync"@
}

/// Whether an option is for mount(8) alone and not for the kernel.
pub open spec fn is_userspace(opt: Seq<char>) -> bool {
    ||| opt == "defaults"@
    ||| opt == "auto"@
    ||| opt == "noauto"@
    ||| opt == "user"@
    ||| opt == "nouser"@
    ||| opt == "_netdev"@
    ||| opt == "nofail"@
    ||| opt == "rw"@
    ||| opt == "exec"@
    ||| opt == "async"@
    ||| opt.len() == 0
    ||| has_prefix(opt, "x-"@)
}

/// Whether an option is handed to the filesystem.
pub open spec fn is_data(opt: Seq<char>) -> bool {
    !is_flag(opt) && !is_userspace(opt)
}

/// The flags that a list of options stands for.
pub open spec fn mount_flags(opts: Seq<Seq<char>>) -> u64
    decreases opts.len(),
{
    if opts.len() == 0 {
        0
    } else {
        mount_flags(opts.drop_last()) | option_flags(opts.last())
    }
}

/// The options for the filesystem, in order.
pub open spec fn data_options(opts: Seq<Seq<char>>) -> Seq<Seq<char>>
    decreases opts.len(),
{
    if opts.len() == 0 {
        Seq::empty()
    } else if is_data(opts.last()) {
        data_options(opts.drop_last()).push(opts.last())
    } else {
        data_options(opts.drop_last())
    }
}

/// The data argument of mount(2): the options for the filesystem, with commas
/// between them; nothing where there is none.
pub open spec fn mount_data(opts: Seq<Seq<char>>) -> Option<Seq<char>> {
    if data_options(opts).len() == 0 {
        None
    } else {
        Some(join(data_options(opts), ","@))
    }
}

/// Whether an option has a part in a mount at all: it is not empty, not marked
/// `x-` and not `loop`.
pub open spec fn is_mountable(opt: Seq<char>) -> bool {
    opt.len() > 0 && !has_prefix(opt, "x-"@) && opt != "loop"@
}

/// The options that have a part in a mount, in order.
pub open spec fn mountable(opts: Seq<Seq<char>>) -> Seq<Seq<char>>
    decreases opts.len(),
{
    if opts.len() == 0 {
        Seq::empty()
    } else if is_mountable(opts.last()) {
        mountable(opts.drop_last()).push(opts.last())
    } else {
        mountable(opts.drop_last())
    }
}

/// The flags of one option, and whether it is a flag.
fn flags_of(opt: &str) -> (r: Option<u64>)
    ensures
        match r {
            Some(bits) => is_flag(opt@) && bits == option_flags(opt@),
            None => !is_flag(opt@) && option_flags(opt@) == 0,
        },
{
    if same_text(opt, "ro") {
        Some(ms_rdonly())
    } else if same_text(opt, "nosuid") {
        Some(ms_nosuid())
    } else if same_text(opt, "nodev") {
        Some(ms_nodev())
    } else if same_text(opt, "noexec") {
        Some(ms_noexec())
    } else if same_text(opt, "sync") {
        Some(ms_synchronous())
    } else if same_text(opt, "noatime") {
        Some(ms_noatime())
    } else if same_text(opt, "nodiratime") {
        Some(ms_nodiratime())
    } else if same_text(opt, "relatime") {
        Some(ms_relatime())
    } else if same_text(opt, "strictatime") {
        Some(ms_strictatime())
    } else if same_text(opt, "lazytime") {
        Some(ms_lazytime())
    } else if same_text(opt, "bind") {
        Some(ms_bind())
    } else if same_text(opt, "rbind") {
        Some(ms_bind() | ms_rec())
    } else if same_text(opt, "remount") {
        Some(ms_remount())
    } else if same_text(opt, "silent") {
        Some(ms_silent())
    } else if same_text(opt, "dirsync") {
        Some(ms_dirsync())
    } else {
        None
    }
}

fn userspace(opt: &str) -> (r: bool)
    ensures
        r == is_userspace(opt@),
{
    same_text(opt, "defaults") || same_text(opt, "auto") || same_text(opt, "noauto") || same_text(
        opt,
        "user",
    ) || same_text(opt, "nouser") || same_text(opt, "_netdev") || same_text(opt, "nofail")
        || same_text(opt, "rw") || same_text(opt, "exec") || same_text(opt, "async")
        || opt.is_empty() || starts_with(opt, "x-")
}

/// Parses mount options into the flags of mount(2) and its data argument.
/// Options that stand for flags are consumed, options for mount(8) are dropped,
/// the rest is joined again.
pub fn parse_mount_options(opts: &Vec<&str>) -> (r: (u64, Option<String>))
    ensures
        r.0 == mount_flags(opts.deep_view()),
        r.1.deep_view() == mount_data(opts.deep_view()),
{
    let mut flags: u64 = 0;
    let mut data: Vec<String> = Vec::new();
    let mut i: usize = 0;
    assert(data.deep_view() =~= data_options(opts.deep_view().take(0)));
    while i < opts.len()
        invariant
            i <= opts@.len(),
            flags == mount_flags(opts.deep_view().take(i as int)),
            data.deep_view() == data_options(opts.deep_view().take(i as int)),
        decreases opts.len() - i,
    {
        proof {
            lemma_take_next(opts.deep_view(), i as int);
        }
        let opt = opts[i];
        match flags_of(opt) {
            Some(bits) => {
                flags = flags | bits;
            },
            None => {
                assert(flags | 0 == flags) by (bit_vector);
                if !userspace(opt) {
                    push_text(&mut data, opt.to_owned());
                }
            },
        }
        i = i + 1;
    }
    assert(opts.deep_view().take(opts@.len() as int) =~= opts.deep_view());
    if data.len() == 0 {
        (flags, None)
    } else {
        (flags, Some(join_texts(&data, ",")))
    }
}

/// The options of a mount as they were written.
#[derive(Debug, PartialEq, Eq)]
pub struct MountOptions {
    pub raw: Vec<String>,
}

impl View for MountOptions {
    type V = Seq<Seq<char>>;

    open spec fn view(&self) -> Seq<Seq<char>> {
        self.raw.deep_view()
    }
}

impl MountOptions {
    pub fn from_vec(raw: Vec<String>) -> (r: Self)
        ensures
            r@ == raw.deep_view(),
    {
        MountOptions { raw }
    }

    pub fn from_slice(raw: &[String]) -> (r: Self)
        ensures
            r@ == raw.deep_view(),
    {
        MountOptions { raw: copy_texts(raw) }
    }

    /// The options of a comma-separated list; empty places do not count.
    pub fn from_csv(raw: &str) -> (r: Self)
        ensures
            r@ == non_empty(split(raw@, ',')),
    {
        let pieces = split_char(raw, ',');
        let mut out: Vec<String> = Vec::new();
        let mut i: usize = 0;
        assert(out.deep_view() =~= non_empty(pieces.deep_view().take(0)));
        while i < pieces.len()
            invariant
                i <= pieces@.len(),
                out.deep_view() == non_empty(pieces.deep_view().take(i as int)),
            decreases pieces.len() - i,
        {
            proof {
                lemma_take_next(pieces.deep_view(), i as int);
            }
            if !pieces[i].as_str().is_empty() {
                push_text(&mut out, pieces[i].clone());
            }
            i = i + 1;
        }
        assert(pieces.deep_view().take(pieces@.len() as int) =~= pieces.deep_view());
        MountOptions { raw: out }
    }

    /// The options that have a part in a mount.
    pub fn raw_for_mount(&self) -> (r: Vec<&str>)
        ensures
            r.deep_view() == mountable(self@),
    {
        let mut out: Vec<&str> = Vec::new();
        let mut i: usize = 0;
        assert(out.deep_view() =~= mountable(self@.take(0)));
        while i < self.raw.len()
            invariant
                i <= self.raw@.len(),
                out.deep_view() == mountable(self@.take(i as int)),
            decreases self.raw.len() - i,
        {
            proof {
                lemma_take_next(self@, i as int);
            }
            let opt = self.raw[i].as_str();
            if !opt.is_empty() && !starts_with(opt, "x-") && !same_text(opt, "loop") {
                let ghost front = out.deep_view();
                out.push(opt);
                assert(out.deep_view() =~= front.push(opt@));
            }
            i = i + 1;
        }
        assert(self@.take(self.raw@.len() as int) =~= self@);
        out
    }

    /// The flags and the data argument for mount(2).
    pub fn parse_for_mount(&self) -> (r: (u64, Option<String>))
        ensures
            r.0 == mount_flags(mountable(self@)),
            r.1.deep_view() == mount_data(mountable(self@)),
    {
        let filtered = self.raw_for_mount();
        parse_mount_options(&filtered)
    }
}

// ---------------------------------------------------------------------------
// Laws
// ---------------------------------------------------------------------------
/// A flag is set exactly when one of the options stands for it; the order and
/// the other options have no part in it.
pub proof fn lemma_flag_set(opts: Seq<Seq<char>>, mask: u64)
    ensures
        mount_flags(opts) & mask != 0 <==> exists|i: int|
            0 <= i < opts.len() && option_flags(#[trigger] opts[i]) & mask != 0,
    decreases opts.len(),
{
    if opts.len() == 0 {
        assert(0u64 & mask == 0) by (bit_vector);
    } else {
        let front = opts.drop_last();
        lemma_flag_set(front, mask);
        let a = mount_flags(front);
        let b = option_flags(opts.last());
        assert((a | b) & mask != 0 <==> (a & mask != 0 || b & mask != 0)) by (bit_vector);
        if a & mask != 0 {
            let i = choose|i: int|
                0 <= i < front.len() && option_flags(#[trigger] front[i]) & mask != 0;
            assert(opts[i] == front[i]);
        }
        if b & mask != 0 {
            assert(option_flags(opts[opts.len() - 1]) & mask != 0);
        }
        if exists|i: int| 0 <= i < opts.len() && option_flags(#[trigger] opts[i]) & mask != 0 {
            let i = choose|i: int|
                0 <= i < opts.len() && option_flags(#[trigger] opts[i]) & mask != 0;
            if i < front.len() {
                assert(front[i] == opts[i]);
            }
        }
    }
}

/// The read-only flag stands for the option `ro` and for no other.
proof fn lemma_read_only_option(opt: Seq<char>)
    ensures
        option_flags(opt) & MS_RDONLY != 0 <==> opt == "ro"@,
{
    assert(0x01u64 & 0x01 != 0 && 0x02u64 & 0x01 == 0 && 0x04u64 & 0x01 == 0 && 0x08u64 & 0x01 == 0
        && 0x10u64 & 0x01 == 0 && 0x20u64 & 0x01 == 0 && 0x80u64 & 0x01 == 0 && 0x0400u64 & 0x01
        == 0 && 0x0800u64 & 0x01 == 0 && 0x1000u64 & 0x01 == 0 && (0x1000u64 | 0x4000u64) & 0x01
        == 0 && 0x8000u64 & 0x01 == 0 && 0x200000u64 & 0x01 == 0 && 0x1000000u64 & 0x01 == 0
        && 0x2000000u64 & 0x01 == 0 && 0x00u64 & 0x01 == 0) by (bit_vector);
}

/// A mount is read-only exactly when `ro` is among its options.
pub proof fn lemma_read_only(opts: Seq<Seq<char>>)
    ensures
        mount_flags(opts) & MS_RDONLY != 0 <==> opts.contains("ro"@),
{
    lemma_flag_set(opts, MS_RDONLY);
    assert forall|i: int| 0 <= i < opts.len() implies (option_flags(#[trigger] opts[i]) & MS_RDONLY
        != 0 <==> opts[i] == "ro"@) by {
        lemma_read_only_option(opts[i]);
    }
    if opts.contains("ro"@) {
        let i = choose|i: int| 0 <= i < opts.len() && opts[i] == "ro"@;
        assert(option_flags(opts[i]) & MS_RDONLY != 0);
    }
}

/// What is handed to the filesystem is exactly what neither becomes a flag nor
/// is for mount(8) alone: no option is lost, and none marked `x-` gets through.
pub proof fn lemma_data_options(opts: Seq<Seq<char>>, opt: Seq<char>)
    ensures
        data_options(opts).contains(opt) <==> opts.contains(opt) && is_data(opt),
    decreases opts.len(),
{
    if opts.len() > 0 {
        let front = opts.drop_last();
        lemma_data_options(front, opt);
        assert(opts =~= front.push(opts.last()));
        lemma_contains_push(front, opts.last(), opt);
        lemma_contains_push(data_options(front), opts.last(), opt);
    }
}

/// The data argument gives the options for the filesystem back, in their order,
/// when it is split at its commas.
pub proof fn lemma_data_is_preserved(opts: Seq<Seq<char>>)
    requires
        forall|i: int| 0 <= i < opts.len() ==> !(#[trigger] opts[i]).contains(','),
    ensures
        match mount_data(opts) {
            Some(data) => split(data, ',') == data_options(opts),
            None => data_options(opts).len() == 0,
        },
{
    let d = data_options(opts);
    assert forall|i: int| 0 <= i < d.len() implies !(#[trigger] d[i]).contains(',') by {
        lemma_data_options(opts, d[i]);
        assert(d.contains(d[i]));
        let k = choose|k: int| 0 <= k < opts.len() && opts[k] == d[i];
        assert(!opts[k].contains(','));
    }
    if d.len() > 0 {
        reveal_strlit(",");
        assert(","@ =~= seq![',']);
        lemma_split_of_join(d, ',');
    }
}

/// Options without commas come back from their comma-separated form.
pub proof fn lemma_csv_round_trip(opts: Seq<Seq<char>>)
    requires
        forall|i: int|
            0 <= i < opts.len() ==> (#[trigger] opts[i]).len() > 0 && !opts[i].contains(','),
    ensures
        non_empty(split(join(opts, ","@), ',')) == opts,
{
    reveal_strlit(",");
    assert(","@ =~= seq![',']);
    if opts.len() > 0 {
        lemma_split_of_join(opts, ',');
        lemma_all_non_empty(opts);
    } else {
        assert(join(opts, ","@) =~= Seq::empty());
        let p = split(Seq::empty(), ',');
        assert(p =~= seq![Seq::empty()]);
        assert(p.drop_last() =~= Seq::empty());
        assert(non_empty(p.drop_last()) =~= Seq::empty());
        assert(non_empty(p) =~= opts);
    }
}

proof fn lemma_all_non_empty(pieces: Seq<Seq<char>>)
    requires
        forall|i: int| 0 <= i < pieces.len() ==> (#[trigger] pieces[i]).len() > 0,
    ensures
        non_empty(pieces) == pieces,
    decreases pieces.len(),
{
    if pieces.len() > 0 {
        lemma_all_non_empty(pieces.drop_last());
        assert(pieces[pieces.len() - 1].len() > 0);
        assert(pieces.drop_last().push(pieces.last()) =~= pieces);
    } else {
        assert(pieces =~= Seq::empty());
    }
}

/// Each option that stands for flags stands for its own, so that what was asked for
/// is what the kernel is told.
pub proof fn lemma_flags_of_options()
    ensures
        option_flags("ro"@) == MS_RDONLY,
        option_flags("nosuid"@) == MS_NOSUID,
        option_flags("nodev"@) == MS_NODEV,
        option_flags("noexec"@) == MS_NOEXEC,
        option_flags("sync"@) == MS_SYNCHRONOUS,
        option_flags("noatime"@) == MS_NOATIME,
        option_flags("nodiratime"@) == MS_NODIRATIME,
        option_flags("relatime"@) == MS_RELATIME,
        option_flags("strictatime"@) == MS_STRICTATIME,
        option_flags("lazytime"@) == MS_LAZYTIME,
        option_flags("bind"@) == MS_BIND,
        option_flags("rbind"@) == MS_BIND | MS_REC,
        option_flags("remount"@) == MS_REMOUNT,
        option_flags("silent"@) == MS_SILENT,
        option_flags("dirsync"@) == MS_DIRSYNC,
{
    reveal_strlit("ro");
    reveal_strlit("nosuid");
    reveal_strlit("nodev");
    reveal_strlit("noexec");
    reveal_strlit("sync");
    reveal_strlit("noatime");
    reveal_strlit("nodiratime");
    reveal_strlit("relatime");
    reveal_strlit("strictatime");
    reveal_strlit("lazytime");
    reveal_strlit("bind");
    reveal_strlit("rbind");
    reveal_strlit("remount");
    reveal_strlit("silent");
    reveal_strlit("dirsync");
    assert("ro"@.len() == 2);
    assert("nosuid"@.len() == 6);
    assert("nodev"@.len() == 5);
    assert("noexec"@.len() == 6);
    assert("sync"@.len() == 4);
    assert("noatime"@.len() == 7);
    assert("nodiratime"@.len() == 10);
    assert("relatime"@.len() == 8);
    assert("strictatime"@.len() == 11);
    assert("lazytime"@.len() == 8);
    assert("bind"@.len() == 4);
    assert("rbind"@.len() == 5);
    assert("remount"@.len() == 7);
    assert("silent"@.len() == 6);
    assert("dirsync"@.len() == 7);
    assert("noexec"@[0] == 'n');
    assert("noexec"@[2] == 'e');
    assert("nosuid"@[0] == 'n');
    assert("nosuid"@[2] == 's');
    assert("silent"@[0] == 's');
    assert("nodev"@[0] == 'n');
    assert("rbind"@[0] == 'r');
    assert("bind"@[0] == 'b');
    assert("sync"@[0] == 's');
    assert("dirsync"@[0] == 'd');
    assert("noatime"@[0] == 'n');
    assert("remount"@[0] == 'r');
    assert("lazytime"@[0] == 'l');
    assert("relatime"@[0] == 'r');
}

/// An option is handed to the filesystem unless it is one of those that become
/// flags, one of those that only mount(8) knows, empty, or marked `x-`.
pub proof fn lemma_what_is_data(opt: Seq<char>)
    ensures
        is_data(opt) <==> {
            &&& opt != "ro"@
            &&& opt != "nosuid"@
            &&& opt != "nodev"@
            &&& opt != "noexec"@
            &&& opt != "sync"@
            &&& opt != "noatime"@
            &&& opt != "nodiratime"@
            &&& opt != "relatime"@
            &&& opt != "strictatime"@
            &&& opt != "lazytime"@
            &&& opt != "bind"@
            &&& opt != "rbind"@
            &&& opt != "remount"@
            &&& opt != "silent"@
            &&& opt != "dirsync"@
            &&& opt != "defaults"@
            &&& opt != "auto"@
            &&& opt != "noauto"@
            &&& opt != "user"@
            &&& opt != "nouser"@
            &&& opt != "_netdev"@
            &&& opt != "nofail"@
            &&& opt != "rw"@
            &&& opt != "exec"@
            &&& opt != "async"@
            &&& opt.len() > 0
            &&& !has_prefix(opt, "x-"@)
        },
        !is_flag(opt) ==> option_flags(opt) == 0,
{
}

/// An option has a part in a mount unless it is empty, marked `x-` or `loop`; none
/// is added, and none changes its place among the others.
pub proof fn lemma_mountable_options(opts: Seq<Seq<char>>, opt: Seq<char>)
    ensures
        mountable(opts).contains(opt) <==> opts.contains(opt) && opt.len() > 0 && !has_prefix(
            opt,
            "x-"@,
        ) && opt != "loop"@,
        (forall|i: int|
            0 <= i < opts.len() ==> (#[trigger] opts[i]).len() > 0 && !has_prefix(opts[i], "x-"@)
                && opts[i] != "loop"@) ==> mountable(opts) == opts,
    decreases opts.len(),
{
    if opts.len() > 0 {
        let front = opts.drop_last();
        lemma_mountable_options(front, opt);
        assert(opts =~= front.push(opts.last()));
        lemma_contains_push(front, opts.last(), opt);
        lemma_contains_push(mountable(front), opts.last(), opt);
        assert forall|i: int| 0 <= i < front.len() implies #[trigger] front[i] == opts[i] by {}
        assert(opts[opts.len() - 1] == opts.last());
    } else {
        assert(opts =~= Seq::empty());
    }
}

/// Options that are all for the filesystem reach it as they were written.
pub proof fn lemma_data_as_written(opts: Seq<Seq<char>>)
    requires
        opts.len() > 0,
        forall|i: int| 0 <= i < opts.len() ==> is_data(#[trigger] opts[i]),
    ensures
        mount_data(opts) == Some(join(opts, seq![','])),
        mount_data(Seq::empty()) is None,
        mount_flags(Seq::empty()) == 0,
{
    reveal_strlit(",");
    assert(","@ =~= seq![',']);
    lemma_all_data(opts);
}

proof fn lemma_all_data(opts: Seq<Seq<char>>)
    requires
        forall|i: int| 0 <= i < opts.len() ==> is_data(#[trigger] opts[i]),
    ensures
        data_options(opts) == opts,
    decreases opts.len(),
{
    if opts.len() > 0 {
        assert(opts[opts.len() - 1] == opts.last());
        let front = opts.drop_last();
        assert forall|i: int| 0 <= i < front.len() implies is_data(#[trigger] front[i]) by {
            assert(front[i] == opts[i]);
        }
        lemma_all_data(front);
        assert(front.push(opts.last()) =~= opts);
    } else {
        assert(opts =~= Seq::empty());
    }
}

} // verus!
