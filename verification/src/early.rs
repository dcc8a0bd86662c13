//! The early mount script: lines that ask for special mounts, in the words of a
//! shell.
use vstd::prelude::*;

use crate::options::MountOptions;
#[allow(unused_imports)]
use crate::options::lemma_csv_round_trip;
use crate::paths::{join_path, path_is_below, quote_path};
#[allow(unused_imports)]
use crate::paths::{is_absolute, is_below, joined, lemma_joined, names, quoted};
use crate::script::{
    if_holds_step, log_step, no_steps, push_step, should_step, Check, Op, Response, Step,
};
#[allow(unused_imports)]
use crate::script::{
    all_goes_well, does, if_holds, log, performed, reaction, script_fails, self_contained, should,
    vital_are, CheckView, OpView, Outcome, ReactionView, ResponseView, StepView,
};
use crate::text::{
    cat2, cat4, push_text, split_lines, starts_with_char, strip_leading, strip_prefix, trim,
};
#[allow(unused_imports)]
use crate::text::{
    after_prefix, has_prefix, join, lemma_prefix, lemma_take_next, lines, non_empty, split,
    trim_end, trim_start, trimmed, without_leading,
};

verus! {

// ---------------------------------------------------------------------------
// Words of a shell
// ---------------------------------------------------------------------------
/// Whether a character stands within quotes, and within which.
#[derive(Debug, Clone, Copy, PartialEq, Eq, Structural)]
pub enum Quotes {
    Outside,
    Single,
    Double,
}

/// How far a line has been read: the arguments that are complete, the one that
/// is being read, and the quotes that are open.
pub struct Reading {
    pub args: Seq<Seq<char>>,
    pub current: Seq<char>,
    pub quotes: Quotes,
}

impl Reading {
    pub open spec fn empty() -> Reading {
        Reading { args: Seq::empty(), current: Seq::empty(), quotes: Quotes::Outside }
    }

    /// The arguments with the one that is being read, unless it is empty.
    pub open spec fn flushed(self) -> Seq<Seq<char>> {
        if self.current.len() == 0 {
            self.args
        } else {
            self.args.push(self.current)
        }
    }

    /// Reads one more character. Quotes are taken away; between them every
    /// character stands for itself. A blank or a tab outside of quotes ends an
    /// argument.
    pub open spec fn read(self, c: char) -> Reading {
        match self.quotes {
            Quotes::Single => if c == '\'' {
                Reading { quotes: Quotes::Outside, ..self }
            } else {
                Reading { current: self.current.push(c), ..self }
            },
            Quotes::Double => if c == '"' {
                Reading { quotes: Quotes::Outside, ..self }
            } else {
                Reading { current: self.current.push(c), ..self }
            },
            Quotes::Outside => if c == '\'' {
                Reading { quotes: Quotes::Single, ..self }
            } else if c == '"' {
                Reading { quotes: Quotes::Double, ..self }
            } else if c == ' ' || c == '\t' {
                Reading { args: self.flushed(), current: Seq::empty(), ..self }
            } else {
                Reading { current: self.current.push(c), ..self }
            },
        }
    }

    /// Reads a text.
    pub open spec fn read_all(self, s: Seq<char>) -> Reading
        decreases s.len(),
    {
        if s.len() == 0 {
            self
        } else {
            self.read_all(s.drop_last()).read(s.last())
        }
    }
}

/// The arguments of a line.
pub open spec fn shell_args(line: Seq<char>) -> Seq<Seq<char>> {
    Reading::empty().read_all(line).flushed()
}

/// The arguments of a line. Quotes of either kind keep blanks together; an
/// argument without characters does not count.
pub fn parse_shell_args(line: &str) -> (r: Vec<String>)
    ensures
        r.deep_view() == shell_args(line@),
{
    let mut args: Vec<String> = Vec::new();
    let mut current: String = String::new();
    let mut quotes = Quotes::Outside;
    assert(args.deep_view() =~= Seq::<Seq<char>>::empty());
    assert(current@ =~= Seq::<char>::empty());
    for c in it: line.chars()
        invariant
            it.seq() == line@,
            (Reading { args: args.deep_view(), current: current@, quotes })
                == Reading::empty().read_all(line@.take(it.index() as int)),
    {
        proof {
            lemma_take_next(line@, it.index() as int);
        }
        match quotes {
            Quotes::Single => {
                if c == '\'' {
                    quotes = Quotes::Outside;
                } else {
                    current.push(c);
                }
            },
            Quotes::Double => {
                if c == '"' {
                    quotes = Quotes::Outside;
                } else {
                    current.push(c);
                }
            },
            Quotes::Outside => {
                if c == '\'' {
                    quotes = Quotes::Single;
                } else if c == '"' {
                    quotes = Quotes::Double;
                } else if c == ' ' || c == '\t' {
                    if !current.as_str().is_empty() {
                        push_text(&mut args, current);
                    }
                    current = String::new();
                    assert(current@ =~= Seq::<char>::empty());
                } else {
                    current.push(c);
                }
            },
        }
    }
    assert(line@.take(line@.len() as int) =~= line@);
    if !current.as_str().is_empty() {
        push_text(&mut args, current);
    }
    args
}

// ---------------------------------------------------------------------------
// Special mounts
// ---------------------------------------------------------------------------
/// Whether a mount point lies in one of the trees that are moved into the root
/// filesystem.
pub open spec fn is_moved(mountpoint: Seq<char>) -> bool {
    ||| is_below(mountpoint, "dev"@)
    ||| is_below(mountpoint, "proc"@)
    ||| is_below(mountpoint, "sys"@)
    ||| is_below(mountpoint, "run"@)
}

/// Where a special mount goes: below the target root, unless its tree is moved
/// there anyway, which would hide the mount.
pub open spec fn special_target(target_root: Seq<char>, mountpoint: Seq<char>) -> Seq<char> {
    if is_moved(mountpoint) {
        mountpoint
    } else {
        joined(target_root, without_leading(mountpoint, '/'))
    }
}

/// Where a special mount goes.
pub fn special_mount_target(target_root: &str, mountpoint: &str) -> (r: String)
    ensures
        r@ == special_target(target_root@, mountpoint@),
{
    if path_is_below(mountpoint, "dev") || path_is_below(mountpoint, "proc") || path_is_below(
        mountpoint,
        "sys",
    ) || path_is_below(mountpoint, "run") {
        mountpoint.to_owned()
    } else {
        join_path(target_root, strip_leading(mountpoint, '/').as_str())
    }
}

/// What a line of the script asks for.
#[derive(Debug, PartialEq, Eq)]
pub enum EarlyMount {
    /// A mount without its four arguments, to be warned about with this message.
    Malformed(String),
    Mount { device: String, mountpoint: String, options: String, fstype: String },
}

pub enum EarlyMountView {
    Malformed(Seq<char>),
    Mount { device: Seq<char>, mountpoint: Seq<char>, options: Seq<char>, fstype: Seq<char> },
}

impl DeepView for EarlyMount {
    type V = EarlyMountView;

    open spec fn deep_view(&self) -> EarlyMountView {
        match self {
            EarlyMount::Malformed(m) => EarlyMountView::Malformed(m@),
            EarlyMount::Mount { device, mountpoint, options, fstype } => EarlyMountView::Mount {
                device: device@,
                mountpoint: mountpoint@,
                options: options@,
                fstype: fstype@,
            },
        }
    }
}

/// What a line asks for. Empty lines, comments and other commands ask for
/// nothing.
pub open spec fn early_line(line: Seq<char>) -> Option<EarlyMountView> {
    let text = trimmed(line);
    if text.len() == 0 || text[0] == '#' {
        None
    } else {
        match after_prefix(text, "specialMount "@) {
            None => None,
            Some(rest) => {
                let args = shell_args(rest);
                if args.len() < 4 {
                    Some(
                        EarlyMountView::Malformed(
                            "Warning: malformed specialMount line: "@ + text,
                        ),
                    )
                } else {
                    Some(
                        EarlyMountView::Mount {
                            device: args[0],
                            mountpoint: args[1],
                            options: args[2],
                            fstype: args[3],
                        },
                    )
                }
            },
        }
    }
}

/// What the lines ask for, in order.
pub open spec fn early_lines(ls: Seq<Seq<char>>) -> Seq<EarlyMountView>
    decreases ls.len(),
{
    if ls.len() == 0 {
        Seq::empty()
    } else {
        let front = early_lines(ls.drop_last());
        match early_line(ls.last()) {
            Some(mount) => front.push(mount),
            None => front,
        }
    }
}

fn read_line(line: &str) -> (r: Option<EarlyMount>)
    ensures
        match r {
            Some(mount) => early_line(line@) == Some(mount.deep_view()),
            None => early_line(line@) is None,
        },
{
    let text = trim(line);
    if text.as_str().is_empty() || starts_with_char(text.as_str(), '#') {
        return None;
    }
    match strip_prefix(text.as_str(), "specialMount ") {
        None => None,
        Some(rest) => {
            let args = parse_shell_args(rest.as_str());
            if args.len() < 4 {
                Some(
                    EarlyMount::Malformed(
                        cat2("Warning: malformed specialMount line: ", text.as_str()),
                    ),
                )
            } else {
                proof {
                    let all = args.deep_view();
                    assert(all[0] == args@[0]@ && all[1] == args@[1]@ && all[2] == args@[2]@
                        && all[3] == args@[3]@);
                }
                Some(
                    EarlyMount::Mount {
                        device: args[0].clone(),
                        mountpoint: args[1].clone(),
                        options: args[2].clone(),
                        fstype: args[3].clone(),
                    },
                )
            }
        },
    }
}

/// The steps of a special mount: one whose target is a mount point already is
/// left out; where one cannot be made the boot fails.
pub open spec fn special_steps(
    target_root: Seq<char>,
    device: Seq<char>,
    mountpoint: Seq<char>,
    options: Seq<char>,
    fstype: Seq<char>,
) -> Seq<StepView> {
    let target = special_target(target_root, mountpoint);
    seq![
        if_holds(CheckView::Mounted(target), 2),
        log(
            "Skipping specialMount "@ + mountpoint + ": "@ + quoted(target)
                + " is already mounted"@,
        ),
        StepView::Skip { skip: 2 },
        should(OpView::CreateDir(target)),
        StepView::Do {
            op: OpView::MountDevice {
                device,
                mountpoint: target,
                fstype,
                options: non_empty(split(options, ',')),
            },
            success: ResponseView::Continue,
            exit: ResponseView::Continue,
            failure: ResponseView::FailBoot(
                "Early mount script: failed to mount "@ + device + " at "@ + quoted(target) + ": "@,
            ),
        },
    ]
}

/// The steps for what a line asks for.
pub open spec fn early_mount_steps(target_root: Seq<char>, mount: EarlyMountView) -> Seq<StepView> {
    match mount {
        EarlyMountView::Malformed(m) => seq![log(m)],
        EarlyMountView::Mount { device, mountpoint, options, fstype } => special_steps(
            target_root,
            device,
            mountpoint,
            options,
            fstype,
        ),
    }
}

/// The steps for what lines ask for, in order.
pub open spec fn early_steps(target_root: Seq<char>, mounts: Seq<EarlyMountView>) -> Seq<StepView>
    decreases mounts.len(),
{
    if mounts.len() == 0 {
        Seq::empty()
    } else {
        early_steps(target_root, mounts.drop_last()) + early_mount_steps(target_root, mounts.last())
    }
}

fn push_special(
    steps: &mut Vec<Step>,
    target_root: &str,
    device: String,
    mountpoint: &str,
    options: &str,
    fstype: String,
)
    ensures
        final(steps).deep_view() == old(steps).deep_view() + special_steps(
            target_root@,
            device@,
            mountpoint@,
            options@,
            fstype@,
        ),
{
    let ghost before = steps.deep_view();
    let ghost expected = special_steps(target_root@, device@, mountpoint@, options@, fstype@);
    let target = special_mount_target(target_root, mountpoint);
    let at = quote_path(target.as_str());
    push_step(steps, if_holds_step(Check::Mounted(target.clone()), 2));
    let skipping = cat4("Skipping specialMount ", mountpoint, ": ", at.as_str());
    push_step(steps, log_step(cat2(skipping.as_str(), " is already mounted").as_str()));
    push_step(steps, Step::Skip { skip: 2 });
    push_step(steps, should_step(Op::CreateDir(target.clone())));
    let head = cat4(
        "Early mount script: failed to mount ",
        device.as_str(),
        " at ",
        at.as_str(),
    );
    let reason = cat2(head.as_str(), ": ");
    push_step(
        steps,
        Step::Do {
            op: Op::MountDevice {
                device,
                mountpoint: target,
                fstype,
                options: MountOptions::from_csv(options).raw,
            },
            success: Response::Continue,
            exit: Response::Continue,
            failure: Response::FailBoot(reason),
        },
    );
    assert(steps.deep_view() =~= before + expected);
}

/// The steps of a script.
pub open spec fn script_steps(target_root: Seq<char>, content: Seq<char>) -> Seq<StepView> {
    early_steps(target_root, early_lines(lines(content)))
}

/// The special mounts of the script.
pub fn early_mounts(target_root: &str, content: &str) -> (r: Vec<Step>)
    ensures
        r.deep_view() == script_steps(target_root@, content@),
{
    let ls = split_lines(content);
    let mut steps = no_steps();
    let mut i: usize = 0;
    assert(steps.deep_view() =~= early_steps(
        target_root@,
        early_lines(ls.deep_view().take(0)),
    ));
    while i < ls.len()
        invariant
            i <= ls@.len(),
            steps.deep_view() == early_steps(
                target_root@,
                early_lines(ls.deep_view().take(i as int)),
            ),
        decreases ls.len() - i,
    {
        let ghost front = early_lines(ls.deep_view().take(i as int));
        proof {
            lemma_take_next(ls.deep_view(), i as int);
        }
        match read_line(ls[i].as_str()) {
            Some(mount) => {
                let ghost asked = mount.deep_view();
                assert(front.push(asked).drop_last() =~= front);
                match mount {
                    EarlyMount::Malformed(m) => {
                        push_step(&mut steps, log_step(m.as_str()));
                        assert(steps.deep_view() =~= early_steps(target_root@, front)
                            + early_mount_steps(target_root@, asked));
                    },
                    EarlyMount::Mount { device, mountpoint, options, fstype } => {
                        push_special(
                            &mut steps,
                            target_root,
                            device,
                            mountpoint.as_str(),
                            options.as_str(),
                            fstype,
                        );
                    },
                }
            },
            None => {},
        }
        i = i + 1;
    }
    assert(ls.deep_view().take(ls@.len() as int) =~= ls.deep_view());
    steps
}

/// What goes before the special mounts of a script: its path, and the steps that
/// announce it.
pub open spec fn announcement(script: Option<Seq<char>>, there: bool) -> Option<
    (Seq<char>, Seq<StepView>),
> {
    match script {
        Some(path) if there => Some(
            (path, seq![log("Running early mount script: "@ + quoted(path))]),
        ),
        _ => None,
    }
}

/// What goes before the special mounts of a script, given whether the script that
/// is set is there: its path, and the step that announces it. Nothing is done
/// where there is none.
pub fn announce_early_mounts(script: &Option<String>, there: bool) -> (r: Option<
    (String, Vec<Step>),
>)
    ensures
        match r {
            Some(begin) => announcement(script.deep_view(), there) == Some(
                (begin.0@, begin.1.deep_view()),
            ),
            None => announcement(script.deep_view(), there) is None,
        },
{
    match script {
        Some(path) => if there {
            let mut steps = no_steps();
            let message = cat2("Running early mount script: ", quote_path(path.as_str()).as_str());
            push_step(&mut steps, log_step(message.as_str()));
            assert(steps.deep_view() =~= seq![
                log("Running early mount script: "@ + quoted(path@)),
            ]);
            Some((path.clone(), steps))
        } else {
            None
        },
        None => None,
    }
}

// ---------------------------------------------------------------------------
// Laws
// ---------------------------------------------------------------------------
proof fn lemma_read_all_append(from: Reading, a: Seq<char>, b: Seq<char>)
    ensures
        from.read_all(a + b) == from.read_all(a).read_all(b),
    decreases b.len(),
{
    if b.len() == 0 {
        assert(a + b =~= a);
    } else {
        lemma_read_all_append(from, a, b.drop_last());
        assert((a + b).drop_last() =~= a + b.drop_last());
        assert((a + b).last() == b.last());
    }
}

proof fn lemma_read_within(from: Reading, s: Seq<char>, quotes: Quotes, mark: char)
    requires
        from.quotes == quotes,
        quotes == Quotes::Single && mark == '\'' || quotes == Quotes::Double && mark == '"',
        !s.contains(mark),
    ensures
        from.read_all(s) == (Reading { current: from.current + s, ..from }),
    decreases s.len(),
{
    if s.len() == 0 {
        assert(from.current + s =~= from.current);
    } else {
        let front = s.drop_last();
        assert forall|i: int| 0 <= i < front.len() implies front[i] != mark by {
            assert(front[i] == s[i]);
        }
        lemma_read_within(from, front, quotes, mark);
        assert(s.contains(s.last()));
        assert((from.current + front).push(s.last()) =~= from.current + s);
    }
}

/// An argument within quotes.
pub open spec fn in_quotes(arg: Seq<char>, mark: char) -> Seq<char> {
    seq![mark] + arg + seq![mark]
}

proof fn lemma_read_quoted(from: Reading, arg: Seq<char>, mark: char)
    requires
        from.quotes == Quotes::Outside,
        from.current.len() == 0,
        mark == '\'' || mark == '"',
        !arg.contains(mark),
    ensures
        from.read_all(in_quotes(arg, mark)) == (Reading { current: arg, ..from }),
{
    let open = from.read_all(seq![mark]);
    assert(seq![mark].drop_last() =~= Seq::empty());
    assert(from.read_all(Seq::empty()) == from);
    assert(open == from.read(mark));
    let quotes = if mark == '\'' {
        Quotes::Single
    } else {
        Quotes::Double
    };
    lemma_read_within(open, arg, quotes, mark);
    lemma_read_all_append(from, seq![mark], arg);
    assert(from.current + arg =~= arg);
    let inside = from.read_all(seq![mark] + arg);
    lemma_read_all_append(from, seq![mark] + arg, seq![mark]);
    assert(inside.read_all(Seq::empty()) == inside);
    assert(inside.read_all(seq![mark]) == inside.read(mark));
}

/// The arguments within quotes, with a blank between each two of them.
pub open spec fn quoted_line(args: Seq<Seq<char>>, mark: char) -> Seq<char> {
    join(Seq::new(args.len(), |i: int| in_quotes(args[i], mark)), seq![' '])
}

/// Quotes of either kind keep an argument together: arguments that are not empty
/// come back from a line that holds them within quotes which they do not hold
/// themselves.
pub proof fn lemma_quoted_args_come_back(args: Seq<Seq<char>>, mark: char)
    requires
        mark == '\'' || mark == '"',
        forall|i: int|
            0 <= i < args.len() ==> (#[trigger] args[i]).len() > 0 && !args[i].contains(mark),
    ensures
        shell_args(quoted_line(args, mark)) == args,
{
    lemma_quoted_reading(args, mark);
    if args.len() > 0 {
        let front = args.drop_last();
        assert(args[args.len() - 1].len() > 0);
        assert(front.push(args.last()) =~= args);
    } else {
        assert(quoted_line(args, mark) =~= Seq::empty());
        assert(args =~= Seq::empty());
    }
}

proof fn lemma_quoted_reading(args: Seq<Seq<char>>, mark: char)
    requires
        mark == '\'' || mark == '"',
        forall|i: int|
            0 <= i < args.len() ==> (#[trigger] args[i]).len() > 0 && !args[i].contains(mark),
    ensures
        args.len() > 0 ==> Reading::empty().read_all(quoted_line(args, mark)) == (Reading {
            args: args.drop_last(),
            current: args.last(),
            quotes: Quotes::Outside,
        }),
    decreases args.len(),
{
    let pieces = Seq::new(args.len(), |i: int| in_quotes(args[i], mark));
    if args.len() == 1 {
        lemma_read_quoted(Reading::empty(), args[0], mark);
        assert(args.drop_last() =~= Seq::empty());
    } else if args.len() > 1 {
        let front = args.drop_last();
        assert forall|i: int| 0 <= i < front.len() implies (#[trigger] front[i]).len() > 0
            && !front[i].contains(mark) by {
            assert(front[i] == args[i]);
        }
        lemma_quoted_reading(front, mark);
        let shorter = Seq::new(front.len(), |i: int| in_quotes(front[i], mark));
        assert(pieces.drop_last() =~= shorter);
        let line = quoted_line(front, mark);
        let start = Reading::empty();
        let at = start.read_all(line);
        lemma_read_all_append(start, line, seq![' ']);
        assert(seq![' '].drop_last() =~= Seq::empty());
        assert(at.read_all(Seq::empty()) == at);
        let next = start.read_all(line + seq![' ']);
        assert(next == at.read(' '));
        assert(front[front.len() - 1].len() > 0);
        assert(front.drop_last().push(front.last()) =~= front);
        assert(args[args.len() - 1].len() > 0);
        lemma_read_quoted(next, args.last(), mark);
        lemma_read_all_append(start, line + seq![' '], in_quotes(args.last(), mark));
        assert(quoted_line(args, mark) == line + seq![' '] + in_quotes(args.last(), mark));
    }
}

/// A special mount lies below the target root, or in a tree that is moved there.
pub proof fn lemma_special_target(target_root: Seq<char>, mountpoint: Seq<char>)
    requires
        !is_absolute(without_leading(mountpoint, '/')),
    ensures
        has_prefix(special_target(target_root, mountpoint), target_root) || is_moved(
            special_target(target_root, mountpoint),
        ),
{
    if !is_moved(mountpoint) {
        let rel = without_leading(mountpoint, '/');
        assert(joined(target_root, rel).take(target_root.len() as int) =~= target_root);
    }
}

/// Nothing is mounted over a mount that is there.
pub proof fn lemma_special_mount_is_not_repeated(
    target_root: Seq<char>,
    device: Seq<char>,
    mountpoint: Seq<char>,
    options: Seq<char>,
    fstype: Seq<char>,
    holds: spec_fn(CheckView) -> bool,
    outcome: spec_fn(OpView) -> Outcome,
)
    requires
        holds(CheckView::Mounted(special_target(target_root, mountpoint))),
    ensures
        ({
            let steps = special_steps(target_root, device, mountpoint, options, fstype);
            &&& performed(steps, 0, holds, outcome).len() == 1
            &&& performed(steps, 0, holds, outcome)[0] is Log
            &&& !script_fails(steps, 0, holds, outcome)
        }),
{
    let steps = special_steps(target_root, device, mountpoint, options, fstype);
    reveal_with_fuel(performed, 5);
    reveal_with_fuel(script_fails, 5);
    assert(performed(steps, 5, holds, outcome) == Seq::<OpView>::empty());
    assert(performed(steps, 2, holds, outcome) == Seq::<OpView>::empty());
    assert(performed(steps, 1, holds, outcome).len() == 1);
}

/// A script that is set and there is read, that one and no other.
pub proof fn lemma_script_is_announced(path: Seq<char>)
    ensures
        announcement(Some(path), true) is Some,
        (announcement(Some(path), true)->0).0 == path,
        announcement(Some(path), false) is None,
        announcement(None, true) is None,
{
}

/// A line that asks for a special mount gives it its device, mount point, options
/// and type, in this order.
pub proof fn lemma_special_mount_line(
    device: Seq<char>,
    mountpoint: Seq<char>,
    options: Seq<char>,
    fstype: Seq<char>,
    mark: char,
)
    requires
        mark == '\'' || mark == '"',
        device.len() > 0 && !device.contains(mark),
        mountpoint.len() > 0 && !mountpoint.contains(mark),
        options.len() > 0 && !options.contains(mark),
        fstype.len() > 0 && !fstype.contains(mark),
    ensures
        early_line("specialMount "@ + quoted_line(seq![device, mountpoint, options, fstype], mark))
            == Some(EarlyMountView::Mount { device, mountpoint, options, fstype }),
{
    let args = seq![device, mountpoint, options, fstype];
    let rest = quoted_line(args, mark);
    let line = "specialMount "@ + rest;
    assert forall|i: int| 0 <= i < args.len() implies (#[trigger] args[i]).len() > 0
        && !args[i].contains(mark) by {}
    lemma_quoted_args_come_back(args, mark);
    reveal_strlit("specialMount ");
    let pieces = Seq::new(args.len(), |i: int| in_quotes(args[i], mark));
    assert(rest == join(pieces.drop_last(), seq![' ']) + seq![' '] + pieces.last());
    assert(pieces.last() == in_quotes(fstype, mark));
    assert(rest.last() == mark);
    assert(line.last() == mark);
    assert(line[0] == 's');
    assert(trim_start(line) == line);
    assert(trim_end(line) == line);
    lemma_prefix(line, "specialMount "@, rest);
}

/// Comments, empty lines and other commands ask for nothing; a special mount with
/// fewer than four arguments is only warned about.
pub proof fn lemma_other_lines(line: Seq<char>)
    ensures
        trimmed(line).len() == 0 ==> early_line(line) is None,
        trimmed(line).len() > 0 && trimmed(line)[0] == '#' ==> early_line(line) is None,
        !has_prefix(trimmed(line), "specialMount "@) ==> early_line(line) is None,
        early_line(line) matches Some(mount) ==> (mount is Malformed <==> shell_args(
            trimmed(line).skip("specialMount "@.len() as int),
        ).len() < 4),
{
}

/// What lines ask for is done line by line, in their order.
pub proof fn lemma_line_by_line(
    target_root: Seq<char>,
    ls: Seq<Seq<char>>,
    line: Seq<char>,
)
    ensures
        early_steps(target_root, early_lines(ls.push(line))) == early_steps(
            target_root,
            early_lines(ls),
        ) + match early_line(line) {
            Some(mount) => early_mount_steps(target_root, mount),
            None => Seq::empty(),
        },
        early_steps(target_root, early_lines(Seq::empty())) == Seq::<StepView>::empty(),
{
    let front = early_lines(ls);
    assert(ls.push(line).drop_last() =~= ls);
    match early_line(line) {
        Some(mount) => {
            assert(front.push(mount).drop_last() =~= front);
        },
        None => {
            assert(early_steps(target_root, front) + Seq::<StepView>::empty() =~= early_steps(
                target_root,
                front,
            ));
        },
    }
}

/// A special mount is made from its device at its place below the target root, as
/// its type and with its options, on a directory that is created before; where it
/// cannot be made the boot fails. In the trees that are moved into the root
/// filesystem it is made where it says.
pub proof fn lemma_special_mount(
    target_root: Seq<char>,
    device: Seq<char>,
    path: Seq<char>,
    options: Seq<Seq<char>>,
    fstype: Seq<char>,
    holds: spec_fn(CheckView) -> bool,
    outcome: spec_fn(OpView) -> Outcome,
)
    requires
        target_root.len() > 0 && target_root.last() != '/',
        !is_absolute(path),
        forall|i: int|
            0 <= i < options.len() ==> (#[trigger] options[i]).len() > 0 && !options[i].contains(
                ',',
            ),
    ensures
        ({
            let mountpoint = seq!['/'] + path;
            let first = names(mountpoint);
            let moved = first.len() > 0 && (first[0] == "dev"@ || first[0] == "proc"@ || first[0]
                == "sys"@ || first[0] == "run"@);
            let target = if moved {
                mountpoint
            } else {
                target_root + mountpoint
            };
            let mount = OpView::MountDevice { device, mountpoint: target, fstype, options };
            let steps = special_steps(
                target_root,
                device,
                mountpoint,
                join(options, ","@),
                fstype,
            );
            &&& !holds(CheckView::Mounted(target)) && all_goes_well(outcome) ==> performed(
                steps,
                0,
                holds,
                outcome,
            ) == seq![OpView::CreateDir(target), mount]
            &&& !holds(CheckView::Mounted(target)) && outcome(mount) == Outcome::Failed
                ==> script_fails(steps, 0, holds, outcome)
        }),
{
    let mountpoint = seq!['/'] + path;
    assert(without_leading(mountpoint, '/') =~= path);
    lemma_joined(target_root, path);
    assert(target_root + seq!['/'] + path =~= target_root + mountpoint);
    lemma_csv_round_trip(options);
    let steps = special_steps(target_root, device, mountpoint, join(options, ","@), fstype);
    let target = special_target(target_root, mountpoint);
    let mount = OpView::MountDevice { device, mountpoint: target, fstype, options };
    assert(does(steps[4], mount));
    assert(performed(steps, 5, holds, outcome) == Seq::<OpView>::empty());
    if !holds(CheckView::Mounted(target)) && all_goes_well(outcome) {
        assert(outcome(mount) == Outcome::Done);
        assert(performed(steps, 4, holds, outcome) =~= seq![mount]);
        assert(performed(steps, 3, holds, outcome) =~= seq![OpView::CreateDir(target), mount]);
    }
    if !holds(CheckView::Mounted(target)) && outcome(mount) == Outcome::Failed {
        assert(script_fails(steps, 4, holds, outcome));
        assert(script_fails(steps, 3, holds, outcome));
    }
}

/// A special mount that cannot be made, or has no place, ends the boot.
pub proof fn lemma_vital_special_mount(
    target_root: Seq<char>,
    device: Seq<char>,
    mountpoint: Seq<char>,
    options: Seq<char>,
    fstype: Seq<char>,
)
    ensures
        ({
            let steps = special_steps(target_root, device, mountpoint, options, fstype);
            &&& vital_are(steps, |op: OpView| !(op is Log))
            &&& reaction(steps[4], Outcome::Failed) is FailBoot
        }),
{
}

/// Whether a text holds neither a blank nor a tab nor a quote.
pub open spec fn is_plain(s: Seq<char>) -> bool {
    !s.contains(' ') && !s.contains('\t') && !s.contains('\'') && !s.contains('"')
}

proof fn lemma_read_plain(from: Reading, s: Seq<char>)
    requires
        from.quotes == Quotes::Outside,
        is_plain(s),
    ensures
        from.read_all(s) == (Reading { current: from.current + s, ..from }),
    decreases s.len(),
{
    if s.len() == 0 {
        assert(from.current + s =~= from.current);
    } else {
        let front = s.drop_last();
        assert forall|c: char| front.contains(c) implies #[trigger] s.contains(c) by {
            let i = choose|i: int| 0 <= i < front.len() && front[i] == c;
            assert(s[i] == c);
        }
        lemma_read_plain(from, front);
        assert(s.contains(s.last()));
        assert((from.current + front).push(s.last()) =~= from.current + s);
    }
}

/// Outside of quotes a blank or a tab ends an argument, and a row of them counts as
/// one: what stands behind it up to the next one is the next argument.
pub proof fn lemma_plain_argument(line: Seq<char>, gap: char, arg: Seq<char>)
    requires
        Reading::empty().read_all(line).quotes == Quotes::Outside,
        gap == ' ' || gap == '\t',
        is_plain(arg),
        arg.len() > 0,
    ensures
        shell_args(line + seq![gap] + arg) == shell_args(line).push(arg),
        shell_args(line + seq![gap]) == shell_args(line),
        shell_args(arg) == seq![arg],
        shell_args(Seq::empty()) == Seq::<Seq<char>>::empty(),
{
    let start = Reading::empty();
    let at = start.read_all(line);
    lemma_read_all_append(start, line, seq![gap]);
    assert(seq![gap].drop_last() =~= Seq::empty());
    assert(at.read_all(Seq::empty()) == at);
    let next = start.read_all(line + seq![gap]);
    assert(next == at.read(gap));
    lemma_read_plain(next, arg);
    lemma_read_all_append(start, line + seq![gap], arg);
    assert(next.current + arg =~= arg);
    lemma_read_plain(start, arg);
    assert(start.current + arg =~= arg);
    assert(shell_args(arg) =~= seq![arg]);
}

/// Quotes need not enclose all of an argument: what they enclose belongs to the
/// argument that it stands in.
pub proof fn lemma_quotes_within_argument(
    front: Seq<char>,
    inner: Seq<char>,
    mark: char,
    end: Seq<char>,
)
    requires
        is_plain(front),
        is_plain(end),
        mark == '\'' || mark == '"',
        !inner.contains(mark),
        (front + inner + end).len() > 0,
    ensures
        shell_args(front + in_quotes(inner, mark) + end) == seq![front + inner + end],
{
    let start = Reading::empty();
    lemma_read_plain(start, front);
    let at = start.read_all(front);
    let open = at.read_all(seq![mark]);
    assert(seq![mark].drop_last() =~= Seq::empty());
    assert(at.read_all(Seq::empty()) == at);
    assert(open == at.read(mark));
    let quotes = if mark == '\'' {
        Quotes::Single
    } else {
        Quotes::Double
    };
    lemma_read_within(open, inner, quotes, mark);
    lemma_read_all_append(at, seq![mark], inner);
    let inside = at.read_all(seq![mark] + inner);
    lemma_read_all_append(at, seq![mark] + inner, seq![mark]);
    assert(inside.read_all(Seq::empty()) == inside);
    assert(inside.read_all(seq![mark]) == inside.read(mark));
    let closed = at.read_all(in_quotes(inner, mark));
    lemma_read_all_append(start, front, in_quotes(inner, mark));
    lemma_read_plain(closed, end);
    lemma_read_all_append(start, front + in_quotes(inner, mark), end);
    let all = start.read_all(front + in_quotes(inner, mark) + end);
    assert(all.current =~= front + inner + end);
    assert(shell_args(front + in_quotes(inner, mark) + end) =~= seq![front + inner + end]);
}

/// The error of a special mount names the device and the place.
pub proof fn lemma_errors_of_special_mounts(
    target_root: Seq<char>,
    device: Seq<char>,
    mountpoint: Seq<char>,
    options: Seq<char>,
    fstype: Seq<char>,
    line: Seq<char>,
)
    ensures
        reaction(
            special_steps(target_root, device, mountpoint, options, fstype)[4],
            Outcome::Failed,
        ) == ReactionView::FailBoot(
            "Early mount script: failed to mount "@ + device + " at "@ + quoted(
                special_target(target_root, mountpoint),
            ) + ": "@,
        ),
        early_line(line) matches Some(EarlyMountView::Malformed(m)) ==> m
            == "Warning: malformed specialMount line: "@ + trimmed(line),
{
}

/// A special mount that is skipped leaves what follows it in the script untouched.
pub proof fn lemma_special_mount_keeps_to_itself(
    target_root: Seq<char>,
    device: Seq<char>,
    mountpoint: Seq<char>,
    options: Seq<char>,
    fstype: Seq<char>,
)
    ensures
        self_contained(special_steps(target_root, device, mountpoint, options, fstype)),
{
}

} // verus!
