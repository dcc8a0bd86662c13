//! The kernel command line.
use vstd::prelude::*;

use crate::text::{cat2, copy_option, push_text, same_text, split_once, split_words, strip_prefix};
#[allow(unused_imports)]
use crate::text::{after, after_prefix, before, has_prefix, lemma_cut, lemma_prefix, words};

verus! {

/// A device as the bootloader names it: `UUID=` and `LABEL=` stand for the
/// links that udev keeps under `/dev/disk`.
pub open spec fn device_link(value: Seq<char>) -> Seq<char> {
    match after_prefix(value, "UUID="@) {
        Some(rest) => "/dev/disk/by-uuid/"@ + rest,
        None => match after_prefix(value, "LABEL="@) {
            Some(rest) => "/dev/disk/by-label/"@ + rest,
            None => value,
        },
    }
}

/// Rewrites `UUID=<hex>` to `/dev/disk/by-uuid/<hex>` and `LABEL=<name>` to
/// `/dev/disk/by-label/<name>`. Other values are returned unchanged.
pub fn rewrite_uuid_label(value: String) -> (r: String)
    ensures
        r@ == device_link(value@),
{
    match strip_prefix(value.as_str(), "UUID=") {
        Some(rest) => cat2("/dev/disk/by-uuid/", rest.as_str()),
        None => match strip_prefix(value.as_str(), "LABEL=") {
            Some(rest) => cat2("/dev/disk/by-label/", rest.as_str()),
            None => value,
        },
    }
}

/// The part of a parameter before its first `=`.
pub open spec fn key_of(token: Seq<char>) -> Seq<char> {
    before(token, '=')
}

/// The part of a parameter after its first `=`, where it has one.
pub open spec fn value_of(token: Seq<char>) -> Option<Seq<char>> {
    after(token, '=')
}

/// The value that the last parameter of that name has; nothing where the name
/// does not occur.
pub open spec fn last_value(tokens: Seq<Seq<char>>, key: Seq<char>) -> Option<Option<Seq<char>>>
    decreases tokens.len(),
{
    if tokens.len() == 0 {
        None
    } else if key_of(tokens.last()) == key {
        Some(value_of(tokens.last()))
    } else {
        last_value(tokens.drop_last(), key)
    }
}

/// The text that a parameter has, where it occurs and has one.
pub open spec fn text_of(value: Option<Option<Seq<char>>>) -> Option<Seq<char>> {
    match value {
        Some(Some(text)) => Some(text),
        _ => None,
    }
}

/// The device that a parameter names.
pub open spec fn device_of(value: Option<Option<Seq<char>>>) -> Option<Seq<char>> {
    match text_of(value) {
        Some(text) => Some(device_link(text)),
        None => None,
    }
}

/// A switch is on unless it says `0` or `false`.
pub open spec fn is_on(value: Option<Seq<char>>) -> bool {
    match value {
        Some(v) => v != "0"@ && v != "false"@,
        None => true,
    }
}

/// Whether a switch is set: it occurs, and is on.
pub open spec fn switch_of(value: Option<Option<Seq<char>>>) -> bool {
    match value {
        Some(v) => is_on(v),
        None => false,
    }
}

/// The values of every occurrence of a parameter, in order.
pub open spec fn all_values(tokens: Seq<Seq<char>>, key: Seq<char>) -> Seq<Seq<char>>
    decreases tokens.len(),
{
    if tokens.len() == 0 {
        Seq::empty()
    } else {
        let front = all_values(tokens.drop_last(), key);
        match value_of(tokens.last()) {
            Some(value) if key_of(tokens.last()) == key => front.push(value),
            _ => front,
        }
    }
}

/// The parameters that have a place of their own in [`KernelCmdline`].
pub open spec fn is_own_key(key: Seq<char>) -> bool {
    ||| key == "root"@
    ||| key == "init"@
    ||| key == "console"@
    ||| key == "boot.shell_on_fail"@
    ||| key == "boot.debug1"@
    ||| key == "boot.debug1devices"@
    ||| key == "boot.debug1mounts"@
    ||| key == "boot.debug"@
    ||| key == "boot.trace"@
    ||| key == "boot.panic_on_fail"@
    ||| key == "boot.no_modprobe"@
    ||| key == "boot.copytoram"@
    ||| key == "boot.persistence"@
    ||| key == "resume"@
    ||| key == "boot.gfx_mode"@
    ||| key == "quiet"@
}

/// A parameter without a place of its own.
#[derive(Debug, PartialEq, Eq)]
pub struct Param {
    pub key: String,
    pub value: Option<String>,
}

/// What the kernel command line asks for.
#[derive(Debug, PartialEq, Eq)]
pub struct KernelCmdline {
    pub root: Option<String>,
    pub init: Option<String>,
    pub console: Vec<String>,
    pub shell_on_fail: bool,
    pub debug1: bool,
    pub debug1devices: bool,
    pub debug1mounts: bool,
    pub debug: bool,
    pub trace: bool,
    pub panic_on_fail: bool,
    pub no_modprobe: bool,
    pub copy_to_ram: bool,
    pub persistence: Option<String>,
    pub resume: Option<String>,
    pub boot_gfx_mode: Option<String>,
    pub quiet: bool,
    pub params: Vec<Param>,
}

/// The value of a key in a list of parameters: that of its first entry.
pub open spec fn lookup(params: Seq<Param>, key: Seq<char>) -> Option<Option<Seq<char>>>
    decreases params.len(),
{
    if params.len() == 0 {
        None
    } else if params[0].key@ == key {
        Some(params[0].value.deep_view())
    } else {
        lookup(params.skip(1), key)
    }
}

impl KernelCmdline {
    /// No key has two entries among the other parameters.
    pub open spec fn wf(self) -> bool {
        forall|i: int, j: int|
            0 <= i < j < self.params@.len() ==> (#[trigger] self.params@[i]).key@ != (
            #[trigger] self.params@[j]).key@
    }

    /// Whether this holds the given values of the parameters, and the given
    /// consoles.
    pub open spec fn holds(
        self,
        value: spec_fn(Seq<char>) -> Option<Option<Seq<char>>>,
        consoles: Seq<Seq<char>>,
    ) -> bool {
        &&& self.root.deep_view() == device_of(value("root"@))
        &&& self.init.deep_view() == text_of(value("init"@))
        &&& self.console.deep_view() == consoles
        &&& self.shell_on_fail == switch_of(value("boot.shell_on_fail"@))
        &&& self.debug1 == switch_of(value("boot.debug1"@))
        &&& self.debug1devices == switch_of(value("boot.debug1devices"@))
        &&& self.debug1mounts == switch_of(value("boot.debug1mounts"@))
        &&& self.debug == switch_of(value("boot.debug"@))
        &&& self.trace == switch_of(value("boot.trace"@))
        &&& self.panic_on_fail == switch_of(value("boot.panic_on_fail"@))
        &&& self.no_modprobe == switch_of(value("boot.no_modprobe"@))
        &&& self.copy_to_ram == switch_of(value("boot.copytoram"@))
        &&& self.persistence.deep_view() == text_of(value("boot.persistence"@))
        &&& self.resume.deep_view() == device_of(value("resume"@))
        &&& self.boot_gfx_mode.deep_view() == text_of(value("boot.gfx_mode"@))
        &&& self.quiet == switch_of(value("quiet"@))
        &&& forall|key: Seq<char>|
            #[trigger] lookup(self.params@, key) == if is_own_key(key) {
                None
            } else {
                value(key)
            }
    }

    /// Whether this is what a list of parameters asks for: of each parameter
    /// the last occurrence counts, and every console.
    pub open spec fn reads(self, tokens: Seq<Seq<char>>) -> bool {
        self.holds(|key: Seq<char>| last_value(tokens, key), all_values(tokens, "console"@))
    }

    /// The text of a parameter without a place of its own.
    pub open spec fn param(self, key: Seq<char>) -> Option<Seq<char>> {
        match lookup(self.params@, key) {
            Some(Some(value)) => Some(value),
            _ => None,
        }
    }
}

impl Default for KernelCmdline {
    fn default() -> (r: Self)
        ensures
            r.wf(),
            r.reads(Seq::empty()),
    {
        let r = KernelCmdline {
            root: None,
            init: None,
            console: Vec::new(),
            shell_on_fail: false,
            debug1: false,
            debug1devices: false,
            debug1mounts: false,
            debug: false,
            trace: false,
            panic_on_fail: false,
            no_modprobe: false,
            copy_to_ram: false,
            persistence: None,
            resume: None,
            boot_gfx_mode: None,
            quiet: false,
            params: Vec::new(),
        };
        assert(r.console.deep_view() =~= all_values(Seq::empty(), "console"@));
        r
    }
}

/// A number of its own for each parameter with a place of its own.
#[verifier::opaque]
spec fn rank(key: Seq<char>) -> int {
    if key == "root"@ {
        1
    } else if key == "init"@ {
        2
    } else if key == "console"@ {
        3
    } else if key == "boot.shell_on_fail"@ {
        4
    } else if key == "boot.debug1"@ {
        5
    } else if key == "boot.debug1devices"@ {
        6
    } else if key == "boot.debug1mounts"@ {
        7
    } else if key == "boot.debug"@ {
        8
    } else if key == "boot.trace"@ {
        9
    } else if key == "boot.panic_on_fail"@ {
        10
    } else if key == "boot.no_modprobe"@ {
        11
    } else if key == "boot.copytoram"@ {
        12
    } else if key == "boot.persistence"@ {
        13
    } else if key == "resume"@ {
        14
    } else if key == "boot.gfx_mode"@ {
        15
    } else if key == "quiet"@ {
        16
    } else {
        0
    }
}

proof fn lemma_ranks()
    ensures
        rank("root"@) == 1,
        rank("init"@) == 2,
        rank("console"@) == 3,
        rank("boot.shell_on_fail"@) == 4,
        rank("boot.debug1"@) == 5,
        rank("boot.debug1devices"@) == 6,
        rank("boot.debug1mounts"@) == 7,
        rank("boot.debug"@) == 8,
        rank("boot.trace"@) == 9,
        rank("boot.panic_on_fail"@) == 10,
        rank("boot.no_modprobe"@) == 11,
        rank("boot.copytoram"@) == 12,
        rank("boot.persistence"@) == 13,
        rank("resume"@) == 14,
        rank("boot.gfx_mode"@) == 15,
        rank("quiet"@) == 16,
{
    reveal(rank);
    reveal_strlit("root");
    reveal_strlit("init");
    reveal_strlit("console");
    reveal_strlit("boot.shell_on_fail");
    reveal_strlit("boot.debug1");
    reveal_strlit("boot.debug1devices");
    reveal_strlit("boot.debug1mounts");
    reveal_strlit("boot.debug");
    reveal_strlit("boot.trace");
    reveal_strlit("boot.panic_on_fail");
    reveal_strlit("boot.no_modprobe");
    reveal_strlit("boot.copytoram");
    reveal_strlit("boot.persistence");
    reveal_strlit("resume");
    reveal_strlit("boot.gfx_mode");
    reveal_strlit("quiet");
    assert("root"@.len() == 4);
    assert("init"@.len() == 4);
    assert("console"@.len() == 7);
    assert("boot.shell_on_fail"@.len() == 18);
    assert("boot.debug1"@.len() == 11);
    assert("boot.debug1devices"@.len() == 18);
    assert("boot.debug1mounts"@.len() == 17);
    assert("boot.debug"@.len() == 10);
    assert("boot.trace"@.len() == 10);
    assert("boot.panic_on_fail"@.len() == 18);
    assert("boot.no_modprobe"@.len() == 16);
    assert("boot.copytoram"@.len() == 14);
    assert("boot.persistence"@.len() == 16);
    assert("resume"@.len() == 6);
    assert("boot.gfx_mode"@.len() == 13);
    assert("quiet"@.len() == 5);
    assert("init"@[0] == 'i' && "root"@[0] == 'r');
    assert("boot.shell_on_fail"@[5] == 's' && "boot.debug1devices"@[5] == 'd'
        && "boot.panic_on_fail"@[5] == 'p');
    assert("boot.debug"@[5] == 'd' && "boot.trace"@[5] == 't');
    assert("boot.no_modprobe"@[5] == 'n' && "boot.persistence"@[5] == 'p');
}

proof fn lemma_lookup_push(params: Seq<Param>, p: Param, key: Seq<char>)
    ensures
        lookup(params.push(p), key) == match lookup(params, key) {
            Some(value) => Some(value),
            None => if p.key@ == key {
                Some(p.value.deep_view())
            } else {
                None
            },
        },
    decreases params.len(),
{
    if params.len() == 0 {
        assert(params.push(p)[0] == p);
        assert(params.push(p).skip(1) =~= Seq::empty());
        assert(lookup(Seq::<Param>::empty(), key) is None);
    } else {
        assert(params.push(p)[0] == params[0]);
        assert(params.push(p).skip(1) =~= params.skip(1).push(p));
        lemma_lookup_push(params.skip(1), p, key);
    }
}

proof fn lemma_lookup_update(params: Seq<Param>, i: int, p: Param, key: Seq<char>)
    requires
        0 <= i < params.len(),
        p.key@ == params[i].key@,
        forall|j: int| 0 <= j < i ==> (#[trigger] params[j]).key@ != p.key@,
    ensures
        lookup(params.update(i, p), key) == if key == p.key@ {
            Some(p.value.deep_view())
        } else {
            lookup(params, key)
        },
    decreases params.len(),
{
    let changed = params.update(i, p);
    if i == 0 {
        assert(changed.skip(1) =~= params.skip(1));
    } else {
        assert(changed[0] == params[0]);
        assert(changed.skip(1) =~= params.skip(1).update(i - 1, p));
        assert forall|j: int| 0 <= j < i - 1 implies (#[trigger] params.skip(1)[j]).key@
            != p.key@ by {
            assert(params.skip(1)[j] == params[j + 1]);
        }
        assert(params[0].key@ != p.key@);
        lemma_lookup_update(params.skip(1), i - 1, p, key);
    }
}

proof fn lemma_lookup_absent(params: Seq<Param>, key: Seq<char>)
    requires
        forall|j: int| 0 <= j < params.len() ==> (#[trigger] params[j]).key@ != key,
    ensures
        lookup(params, key) is None,
    decreases params.len(),
{
    if params.len() > 0 {
        assert(params[0].key@ != key);
        assert forall|j: int| 0 <= j < params.skip(1).len() implies (#[trigger] params.skip(
            1,
        )[j]).key@ != key by {
            assert(params.skip(1)[j] == params[j + 1]);
        }
        lemma_lookup_absent(params.skip(1), key);
    }
}

proof fn lemma_lookup_first(params: Seq<Param>, i: int, key: Seq<char>)
    requires
        0 <= i < params.len(),
        params[i].key@ == key,
        forall|j: int| 0 <= j < i ==> (#[trigger] params[j]).key@ != key,
    ensures
        lookup(params, key) == Some(params[i].value.deep_view()),
{
    lemma_lookup_update(params, i, params[i], key);
    assert(params.update(i, params[i]) =~= params);
}

/// The first entry of a key, or the length of the list.
fn find_param(params: &Vec<Param>, key: &str) -> (r: usize)
    ensures
        r <= params@.len(),
        r < params@.len() ==> params@[r as int].key@ == key@,
        forall|j: int| 0 <= j < r ==> (#[trigger] params@[j]).key@ != key@,
{
    let mut i: usize = 0;
    while i < params.len() && !same_text(params[i].key.as_str(), key)
        invariant
            i <= params@.len(),
            forall|j: int| 0 <= j < i ==> (#[trigger] params@[j]).key@ != key@,
        decreases params.len() - i,
    {
        i = i + 1;
    }
    i
}

/// Gives a parameter its value, in place of an earlier one.
fn set_param(params: &mut Vec<Param>, key: String, value: Option<String>)
    requires
        forall|i: int, j: int|
            0 <= i < j < old(params)@.len() ==> (#[trigger] old(params)@[i]).key@ != (
            #[trigger] old(params)@[j]).key@,
    ensures
        forall|i: int, j: int|
            0 <= i < j < final(params)@.len() ==> (#[trigger] final(params)@[i]).key@ != (
            #[trigger] final(params)@[j]).key@,
        forall|k: Seq<char>|
            #[trigger] lookup(final(params)@, k) == if k == key@ {
                Some(value.deep_view())
            } else {
                lookup(old(params)@, k)
            },
{
    let ghost before = params@;
    let i = find_param(params, key.as_str());
    let p = Param { key, value };
    if i < params.len() {
        proof {
            assert forall|k: Seq<char>| #[trigger]
                lookup(before.update(i as int, p), k) == if k == p.key@ {
                    Some(p.value.deep_view())
                } else {
                    lookup(before, k)
                } by {
                lemma_lookup_update(before, i as int, p, k);
            }
        }
        params.set(i, p);
        proof {
            assert forall|a: int, b: int| 0 <= a < b < params@.len() implies (
            #[trigger] params@[a]).key@ != (#[trigger] params@[b]).key@ by {
                assert(before[a].key@ != before[b].key@);
            }
        }
    } else {
        proof {
            assert forall|k: Seq<char>| #[trigger] lookup(before.push(p), k) == if k == p.key@ {
                Some(p.value.deep_view())
            } else {
                lookup(before, k)
            } by {
                lemma_lookup_push(before, p, k);
                if k == p.key@ {
                    lemma_lookup_absent(before, k);
                }
            }
        }
        params.push(p);
    }
}

fn switched_on(value: &Option<String>) -> (r: bool)
    ensures
        r == is_on(value.deep_view()),
{
    match value {
        Some(v) => !same_text(v.as_str(), "0") && !same_text(v.as_str(), "false"),
        None => true,
    }
}

fn device_value(value: Option<String>) -> (r: Option<String>)
    ensures
        r.deep_view() == match value.deep_view() {
            Some(v) => Some(device_link(v)),
            None => None,
        },
{
    match value {
        Some(v) => Some(rewrite_uuid_label(v)),
        None => None,
    }
}

impl KernelCmdline {
    /// Whether this has taken one more parameter into account.
    spec fn takes(
        self,
        key: Seq<char>,
        value: Option<Seq<char>>,
        values: spec_fn(Seq<char>) -> Option<Option<Seq<char>>>,
        consoles: Seq<Seq<char>>,
    ) -> bool {
        &&& self.wf()
        &&& self.holds(
            |k: Seq<char>|
                if k == key {
                    Some(value)
                } else {
                    values(k)
                },
            match value {
                Some(v) if key == "console"@ => consoles.push(v),
                _ => consoles,
            },
        )
    }

    /// Takes a parameter with a text into account, if it is one.
    fn take_texts(
        &mut self,
        key: &str,
        value: &Option<String>,
        Ghost(values): Ghost<spec_fn(Seq<char>) -> Option<Option<Seq<char>>>>,
        Ghost(consoles): Ghost<Seq<Seq<char>>>,
    ) -> (taken: bool)
        requires
            old(self).wf(),
            old(self).holds(values, consoles),
        ensures
            taken ==> final(self).takes(key@, value.deep_view(), values, consoles),
            !taken ==> *final(self) == *old(self),
            taken == ({
                ||| key@ == "root"@
                ||| key@ == "init"@
                ||| key@ == "boot.persistence"@
                ||| key@ == "resume"@
                ||| key@ == "boot.gfx_mode"@
            }),
    {
        proof {
            lemma_ranks();
        }
        if same_text(key, "root") {
            self.root = device_value(copy_option(value));
            return true;
        }
        if same_text(key, "init") {
            self.init = copy_option(value);
            return true;
        }
        if same_text(key, "boot.persistence") {
            self.persistence = copy_option(value);
            return true;
        }
        if same_text(key, "resume") {
            self.resume = device_value(copy_option(value));
            return true;
        }
        if same_text(key, "boot.gfx_mode") {
            self.boot_gfx_mode = copy_option(value);
            return true;
        }
        false
    }

    /// Takes a switch for debugging into account, if it is one.
    fn take_debug_switches(
        &mut self,
        key: &str,
        value: &Option<String>,
        Ghost(values): Ghost<spec_fn(Seq<char>) -> Option<Option<Seq<char>>>>,
        Ghost(consoles): Ghost<Seq<Seq<char>>>,
    ) -> (taken: bool)
        requires
            old(self).wf(),
            old(self).holds(values, consoles),
        ensures
            taken ==> final(self).takes(key@, value.deep_view(), values, consoles),
            !taken ==> *final(self) == *old(self),
            taken == ({
                ||| key@ == "boot.debug1"@
                ||| key@ == "boot.debug1devices"@
                ||| key@ == "boot.debug1mounts"@
                ||| key@ == "boot.debug"@
                ||| key@ == "boot.trace"@
            }),
    {
        proof {
            lemma_ranks();
        }
        if same_text(key, "boot.debug1") {
            self.debug1 = switched_on(value);
            return true;
        }
        if same_text(key, "boot.debug1devices") {
            self.debug1devices = switched_on(value);
            return true;
        }
        if same_text(key, "boot.debug1mounts") {
            self.debug1mounts = switched_on(value);
            return true;
        }
        if same_text(key, "boot.debug") {
            self.debug = switched_on(value);
            return true;
        }
        if same_text(key, "boot.trace") {
            self.trace = switched_on(value);
            return true;
        }
        false
    }

    /// Takes another switch into account, if it is one.
    fn take_boot_switches(
        &mut self,
        key: &str,
        value: &Option<String>,
        Ghost(values): Ghost<spec_fn(Seq<char>) -> Option<Option<Seq<char>>>>,
        Ghost(consoles): Ghost<Seq<Seq<char>>>,
    ) -> (taken: bool)
        requires
            old(self).wf(),
            old(self).holds(values, consoles),
        ensures
            taken ==> final(self).takes(key@, value.deep_view(), values, consoles),
            !taken ==> *final(self) == *old(self),
            taken == ({
                ||| key@ == "boot.shell_on_fail"@
                ||| key@ == "boot.panic_on_fail"@
                ||| key@ == "boot.no_modprobe"@
                ||| key@ == "boot.copytoram"@
                ||| key@ == "quiet"@
            }),
    {
        proof {
            lemma_ranks();
        }
        if same_text(key, "boot.shell_on_fail") {
            self.shell_on_fail = switched_on(value);
            return true;
        }
        if same_text(key, "boot.panic_on_fail") {
            self.panic_on_fail = switched_on(value);
            return true;
        }
        if same_text(key, "boot.no_modprobe") {
            self.no_modprobe = switched_on(value);
            return true;
        }
        if same_text(key, "boot.copytoram") {
            self.copy_to_ram = switched_on(value);
            return true;
        }
        if same_text(key, "quiet") {
            self.quiet = switched_on(value);
            return true;
        }
        false
    }

    /// Takes one more parameter into account.
    fn take(
        &mut self,
        key: String,
        value: Option<String>,
        Ghost(values): Ghost<spec_fn(Seq<char>) -> Option<Option<Seq<char>>>>,
        Ghost(consoles): Ghost<Seq<Seq<char>>>,
    )
        requires
            old(self).wf(),
            old(self).holds(values, consoles),
        ensures
            final(self).takes(key@, value.deep_view(), values, consoles),
    {
        if self.take_texts(key.as_str(), &value, Ghost(values), Ghost(consoles)) {
            return;
        }
        if self.take_debug_switches(key.as_str(), &value, Ghost(values), Ghost(consoles)) {
            return;
        }
        if self.take_boot_switches(key.as_str(), &value, Ghost(values), Ghost(consoles)) {
            return;
        }
        proof {
            lemma_ranks();
        }
        if same_text(key.as_str(), "console") {
            if let Some(v) = value {
                push_text(&mut self.console, v);
            }
            return;
        }
        set_param(&mut self.params, key, value);
    }

    /// What the content of `/proc/cmdline` asks for. Of several occurrences of
    /// a parameter the last one counts, but every `console=` does.
    pub fn parse(content: &str) -> (r: Self)
        ensures
            r.wf(),
            r.reads(words(content@)),
    {
        let tokens = split_words(content);
        let mut cmdline = KernelCmdline::default();
        let mut i: usize = 0;
        assert(tokens.deep_view().take(0) =~= Seq::empty());
        while i < tokens.len()
            invariant
                i <= tokens@.len(),
                cmdline.wf(),
                cmdline.reads(tokens.deep_view().take(i as int)),
            decreases tokens.len() - i,
        {
            let ghost front = tokens.deep_view().take(i as int);
            let ghost token = tokens@[i as int]@;
            let (key, value) = split_once(tokens[i].as_str(), '=');
            cmdline.take(
                key,
                value,
                Ghost(|k: Seq<char>| last_value(front, k)),
                Ghost(all_values(front, "console"@)),
            );
            proof {
                let longer = tokens.deep_view().take(i + 1);
                assert(longer =~= front.push(token));
                assert(longer.drop_last() =~= front);
                let then = |k: Seq<char>|
                    if k == key_of(token) {
                        Some(value_of(token))
                    } else {
                        (|k: Seq<char>| last_value(front, k))(k)
                    };
                assert(then =~= |k: Seq<char>| last_value(longer, k)) by {
                    assert forall|k: Seq<char>| #[trigger] then(k) == last_value(longer, k) by {
                        lemma_last_occurrence_wins(front, token, k);
                    }
                }
            }
            i = i + 1;
        }
        assert(tokens.deep_view().take(tokens@.len() as int) =~= tokens.deep_view());
        cmdline
    }

    /// The text of a parameter without a place of its own.
    pub fn get(&self, key: &str) -> (r: Option<&String>)
        ensures
            r.deep_view() == self.param(key@),
    {
        let i = find_param(&self.params, key);
        if i < self.params.len() {
            proof {
                lemma_lookup_first(self.params@, i as int, key@);
            }
            self.params[i].value.as_ref()
        } else {
            proof {
                lemma_lookup_absent(self.params@, key@);
            }
            None
        }
    }
}

// ---------------------------------------------------------------------------
// Laws
// ---------------------------------------------------------------------------
/// Rewriting a device twice is rewriting it once: a link under `/dev/disk`
/// stays as it is.
pub proof fn lemma_device_link_is_stable(value: Seq<char>)
    ensures
        device_link(device_link(value)) == device_link(value),
{
    reveal_strlit("UUID=");
    reveal_strlit("LABEL=");
    reveal_strlit("/dev/disk/by-uuid/");
    reveal_strlit("/dev/disk/by-label/");
    let r = device_link(value);
    if r != value {
        assert(r[0] == '/');
        assert(r.take(5)[0] == '/');
        assert(r.take(6)[0] == '/');
        assert("UUID="@[0] == 'U' && "LABEL="@[0] == 'L');
    }
}

/// A later occurrence of a parameter overrides every earlier one, and leaves
/// all other parameters alone.
pub proof fn lemma_last_occurrence_wins(
    tokens: Seq<Seq<char>>,
    token: Seq<char>,
    key: Seq<char>,
)
    ensures
        key_of(token) == key ==> last_value(tokens.push(token), key) == Some(value_of(token)),
        key_of(token) != key ==> last_value(tokens.push(token), key) == last_value(tokens, key),
{
    assert(tokens.push(token).drop_last() =~= tokens);
}

/// The last word on a parameter is what is read: a text, a device, a switch that
/// is on unless the value says otherwise, one more console, or a parameter without
/// a place of its own.
pub proof fn lemma_last_value_is_read(
    after: KernelCmdline,
    tokens: Seq<Seq<char>>,
    key: Seq<char>,
    value: Seq<char>,
)
    requires
        !key.contains('='),
        after.reads(tokens.push(key + seq!['='] + value)),
    ensures
        key == "init"@ ==> after.init.deep_view() == Some(value),
        key == "boot.persistence"@ ==> after.persistence.deep_view() == Some(value),
        key == "boot.gfx_mode"@ ==> after.boot_gfx_mode.deep_view() == Some(value),
        key == "root"@ ==> after.root.deep_view() == Some(device_link(value)),
        key == "resume"@ ==> after.resume.deep_view() == Some(device_link(value)),
        key == "boot.shell_on_fail"@ ==> (after.shell_on_fail <==> value != "0"@ && value
            != "false"@),
        key == "boot.debug1"@ ==> (after.debug1 <==> value != "0"@ && value != "false"@),
        key == "boot.debug1devices"@ ==> (after.debug1devices <==> value != "0"@ && value
            != "false"@),
        key == "boot.debug1mounts"@ ==> (after.debug1mounts <==> value != "0"@ && value
            != "false"@),
        key == "boot.debug"@ ==> (after.debug <==> value != "0"@ && value != "false"@),
        key == "boot.trace"@ ==> (after.trace <==> value != "0"@ && value != "false"@),
        key == "boot.panic_on_fail"@ ==> (after.panic_on_fail <==> value != "0"@ && value
            != "false"@),
        key == "boot.no_modprobe"@ ==> (after.no_modprobe <==> value != "0"@ && value != "false"@),
        key == "boot.copytoram"@ ==> (after.copy_to_ram <==> value != "0"@ && value != "false"@),
        key == "quiet"@ ==> (after.quiet <==> value != "0"@ && value != "false"@),
        key == "console"@ ==> after.console.deep_view() == all_values(tokens, "console"@).push(
            value,
        ),
        !is_own_key(key) ==> after.param(key) == Some(value),
        key == "rootfstype"@ || key == "rootflags"@ || key == "iso_source"@ ==> after.param(key)
            == Some(value),
{
    let token = key + seq!['='] + value;
    lemma_cut(key, '=', value);
    lemma_last_occurrence_wins(tokens, token, key);
    assert(tokens.push(token).drop_last() =~= tokens);
    lemma_ranks();
    assert(lookup(after.params@, key) == if is_own_key(key) {
        None
    } else {
        last_value(tokens.push(token), key)
    });
    lemma_not_own(key);
}

/// A parameter without a value switches something on.
pub proof fn lemma_bare_switch(
    after: KernelCmdline,
    tokens: Seq<Seq<char>>,
    key: Seq<char>,
)
    requires
        !key.contains('='),
        after.reads(tokens.push(key)),
    ensures
        key == "boot.shell_on_fail"@ ==> after.shell_on_fail,
        key == "boot.debug1"@ ==> after.debug1,
        key == "boot.debug1devices"@ ==> after.debug1devices,
        key == "boot.debug1mounts"@ ==> after.debug1mounts,
        key == "boot.debug"@ ==> after.debug,
        key == "boot.trace"@ ==> after.trace,
        key == "boot.panic_on_fail"@ ==> after.panic_on_fail,
        key == "boot.no_modprobe"@ ==> after.no_modprobe,
        key == "boot.copytoram"@ ==> after.copy_to_ram,
        key == "quiet"@ ==> after.quiet,
{
    lemma_cut(key, '=', Seq::empty());
    lemma_last_occurrence_wins(tokens, key, key);
}

/// A parameter changes nothing but what goes by its name.
pub proof fn lemma_other_parameters_stay(
    before: KernelCmdline,
    after: KernelCmdline,
    tokens: Seq<Seq<char>>,
    token: Seq<char>,
    name: Seq<char>,
)
    requires
        before.reads(tokens),
        after.reads(tokens.push(token)),
        key_of(token) != name,
    ensures
        name == "init"@ ==> after.init.deep_view() == before.init.deep_view(),
        name == "boot.persistence"@ ==> after.persistence.deep_view()
            == before.persistence.deep_view(),
        name == "boot.gfx_mode"@ ==> after.boot_gfx_mode.deep_view()
            == before.boot_gfx_mode.deep_view(),
        name == "root"@ ==> after.root.deep_view() == before.root.deep_view(),
        name == "resume"@ ==> after.resume.deep_view() == before.resume.deep_view(),
        name == "boot.shell_on_fail"@ ==> after.shell_on_fail == before.shell_on_fail,
        name == "boot.debug1"@ ==> after.debug1 == before.debug1,
        name == "boot.debug1devices"@ ==> after.debug1devices == before.debug1devices,
        name == "boot.debug1mounts"@ ==> after.debug1mounts == before.debug1mounts,
        name == "boot.debug"@ ==> after.debug == before.debug,
        name == "boot.trace"@ ==> after.trace == before.trace,
        name == "boot.panic_on_fail"@ ==> after.panic_on_fail == before.panic_on_fail,
        name == "boot.no_modprobe"@ ==> after.no_modprobe == before.no_modprobe,
        name == "boot.copytoram"@ ==> after.copy_to_ram == before.copy_to_ram,
        name == "quiet"@ ==> after.quiet == before.quiet,
        name == "console"@ ==> after.console.deep_view() == before.console.deep_view(),
        after.param(name) == before.param(name),
{
    lemma_last_occurrence_wins(tokens, token, name);
    assert(tokens.push(token).drop_last() =~= tokens);
    assert(lookup(after.params@, name) == lookup(before.params@, name));
}

/// What does not occur is not asked for.
pub proof fn lemma_empty_command_line(cmdline: KernelCmdline, key: Seq<char>)
    requires
        cmdline.reads(Seq::empty()),
    ensures
        cmdline.init is None,
        cmdline.persistence is None,
        cmdline.boot_gfx_mode is None,
        cmdline.root is None,
        cmdline.resume is None,
        !cmdline.shell_on_fail,
        !cmdline.debug1,
        !cmdline.debug1devices,
        !cmdline.debug1mounts,
        !cmdline.debug,
        !cmdline.trace,
        !cmdline.panic_on_fail,
        !cmdline.no_modprobe,
        !cmdline.copy_to_ram,
        !cmdline.quiet,
        cmdline.console.deep_view().len() == 0,
        cmdline.param(key) is None,
{
    assert(lookup(cmdline.params@, key) is None);
}

/// A device by its identity or its label is the link that udev keeps for it; any
/// other value stands for itself.
pub proof fn lemma_device_links(value: Seq<char>, id: Seq<char>)
    ensures
        device_link("UUID="@ + id) == "/dev/disk/by-uuid/"@ + id,
        device_link("LABEL="@ + id) == "/dev/disk/by-label/"@ + id,
        !has_prefix(value, "UUID="@) && !has_prefix(value, "LABEL="@) ==> device_link(value)
            == value,
{
    lemma_prefix(value, "UUID="@, id);
    lemma_prefix(value, "LABEL="@, id);
    reveal_strlit("UUID=");
    reveal_strlit("LABEL=");
    assert(("LABEL="@ + id)[0] == 'L');
    assert(("LABEL="@ + id).take(5)[0] == 'L');
    assert("UUID="@[0] == 'U');
}

proof fn lemma_not_own(key: Seq<char>)
    ensures
        key == "rootfstype"@ || key == "rootflags"@ || key == "iso_source"@ ==> !is_own_key(key),
{
    lemma_ranks();
    reveal(rank);
    reveal_strlit("rootfstype");
    reveal_strlit("rootflags");
    reveal_strlit("iso_source");
    reveal_strlit("root");
    reveal_strlit("init");
    reveal_strlit("console");
    reveal_strlit("boot.shell_on_fail");
    reveal_strlit("boot.debug1");
    reveal_strlit("boot.debug1devices");
    reveal_strlit("boot.debug1mounts");
    reveal_strlit("boot.debug");
    reveal_strlit("boot.trace");
    reveal_strlit("boot.panic_on_fail");
    reveal_strlit("boot.no_modprobe");
    reveal_strlit("boot.copytoram");
    reveal_strlit("boot.persistence");
    reveal_strlit("resume");
    reveal_strlit("boot.gfx_mode");
    reveal_strlit("quiet");
    assert("rootfstype"@.len() == 10 && "rootfstype"@[0] == 'r');
    assert("rootflags"@.len() == 9);
    assert("iso_source"@.len() == 10 && "iso_source"@[0] == 'i');
    assert("boot.debug"@[0] == 'b' && "boot.trace"@[0] == 'b');
    assert("root"@.len() == 4);
    assert("init"@.len() == 4);
    assert("console"@.len() == 7);
    assert("boot.shell_on_fail"@.len() == 18);
    assert("boot.debug1"@.len() == 11);
    assert("boot.debug1devices"@.len() == 18);
    assert("boot.debug1mounts"@.len() == 17);
    assert("boot.debug"@.len() == 10);
    assert("boot.trace"@.len() == 10);
    assert("boot.panic_on_fail"@.len() == 18);
    assert("boot.no_modprobe"@.len() == 16);
    assert("boot.copytoram"@.len() == 14);
    assert("boot.persistence"@.len() == 16);
    assert("resume"@.len() == 6);
    assert("boot.gfx_mode"@.len() == 13);
    assert("quiet"@.len() == 5);
}

} // verus!
