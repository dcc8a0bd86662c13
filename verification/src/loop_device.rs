//! Attaching a regular file to a loop device, by which it can be mounted.
use vstd::prelude::*;

use crate::modules::load_module;
#[allow(unused_imports)]
use crate::modules::module_steps;
use crate::mount::Mount;
use crate::script::Step;
#[allow(unused_imports)]
use crate::script::{ResponseView, StepView};
use crate::text::{cat2, signed_text};
#[allow(unused_imports)]
use crate::text::{decimal, signed_decimal};
#[allow(unused_imports)]
use vstd::utf8::encode_utf8;

verus! {

/// The loop device takes no writes.
pub const LO_FLAGS_READ_ONLY: u32 = 1;

/// The loop device is given back with its last use.
pub const LO_FLAGS_AUTOCLEAR: u32 = 4;

/// Attaches a file.
pub const LOOP_SET_FD: u64 = 0x4C00;

/// Gives the attached file back.
pub const LOOP_CLR_FD: u64 = 0x4C01;

/// Sets the parameters of a loop device.
pub const LOOP_SET_STATUS64: u64 = 0x4C04;

/// Asks for a loop device that is free.
pub const LOOP_CTL_GET_FREE: u64 = 0x4C82;

/// The room for a file's name in the parameters of a loop device.
pub const LO_NAME_SIZE: usize = 64;

/// The parameters of a loop device that are not zero.
#[derive(Debug, PartialEq, Eq)]
pub struct LoopInfo {
    pub flags: u32,
    pub file_name: [u8; 64],
}

/// The flags of a loop device.
pub open spec fn loop_flags(read_only: bool) -> u32 {
    if read_only {
        LO_FLAGS_AUTOCLEAR | LO_FLAGS_READ_ONLY
    } else {
        LO_FLAGS_AUTOCLEAR
    }
}

/// The name of a file as far as there is room for it, filled up with zeros.
pub open spec fn loop_name(bytes: Seq<u8>) -> Seq<u8> {
    Seq::new(
        LO_NAME_SIZE as nat,
        |i: int|
            if i < bytes.len() {
                bytes[i]
            } else {
                0
            },
    )
}

/// Where an attachment stands.
#[derive(Debug, Clone, Copy, PartialEq, Eq, Structural)]
pub enum LoopState {
    /// The module is loaded.
    Module,
    /// The file is opened.
    Backing,
    /// The control device is opened.
    Control,
    /// A free loop device is asked for.
    Number,
    /// The loop device of that number is opened.
    Device(i32),
    /// The file is attached to it.
    SetFile(i32),
    /// Its parameters are set.
    SetStatus(i32),
    /// The file is given back.
    ClearFile(i32),
    Attached(i32),
    NoBacking,
    NoControl,
    NoNumber,
    NoDevice(i32),
    NoFile(i32),
    NoStatus(i32),
}

/// What came of a step.
#[derive(Debug, Clone, Copy, PartialEq, Eq, Structural)]
pub enum LoopEvent {
    Done,
    Failed,
    /// What the kernel gave back to a request; a negative number is a failure.
    Returned(i32),
}

/// Whether a step came out well.
pub open spec fn went_well(event: LoopEvent) -> bool {
    match event {
        LoopEvent::Done => true,
        LoopEvent::Failed => false,
        LoopEvent::Returned(n) => n >= 0,
    }
}

/// Where an attachment stands after an event. Nothing hangs on the module and on
/// the giving back of the file; what does not belong to a state changes nothing.
pub open spec fn loop_next(state: LoopState, event: LoopEvent) -> LoopState {
    match state {
        LoopState::Module => LoopState::Backing,
        LoopState::Backing => if went_well(event) {
            LoopState::Control
        } else {
            LoopState::NoBacking
        },
        LoopState::Control => if went_well(event) {
            LoopState::Number
        } else {
            LoopState::NoControl
        },
        LoopState::Number => match event {
            LoopEvent::Returned(n) if n >= 0 => LoopState::Device(n),
            _ => LoopState::NoNumber,
        },
        LoopState::Device(n) => if went_well(event) {
            LoopState::SetFile(n)
        } else {
            LoopState::NoDevice(n)
        },
        LoopState::SetFile(n) => if went_well(event) {
            LoopState::SetStatus(n)
        } else {
            LoopState::NoFile(n)
        },
        LoopState::SetStatus(n) => if went_well(event) {
            LoopState::Attached(n)
        } else {
            LoopState::ClearFile(n)
        },
        LoopState::ClearFile(n) => LoopState::NoStatus(n),
        _ => state,
    }
}

/// The path of a loop device.
pub open spec fn loop_path(number: i32) -> Seq<char> {
    "/dev/loop"@ + signed_decimal(number as int)
}

/// What an attachment asks for next, or what came of it.
#[derive(Debug, PartialEq, Eq)]
pub enum LoopRequest {
    /// Perform the steps; nothing hangs on them.
    Prepare(Vec<Step>),
    /// Open the file, for writing as well where `write` says so.
    OpenBacking { path: String, write: bool },
    /// Open the control device for reading and writing.
    OpenControl { path: String },
    /// Ask the control device for a free loop device.
    GetFree,
    /// Open the loop device for reading and writing.
    OpenDevice { path: String },
    /// Attach the file.
    SetFile,
    /// Set the parameters; where that fails its error is the one to report.
    SetStatus(LoopInfo),
    /// Give the file back.
    ClearFile,
    /// The file is attached to the loop device at the path. The loop device has
    /// to stay open until it is mounted.
    Attached { path: String },
    /// Fail with the message.
    Fail(String),
}

pub enum LoopRequestView {
    Prepare(Seq<StepView>),
    OpenBacking { path: Seq<char>, write: bool },
    OpenControl { path: Seq<char> },
    GetFree,
    OpenDevice { path: Seq<char> },
    SetFile,
    SetStatus { flags: u32, file_name: Seq<u8> },
    ClearFile,
    Attached { path: Seq<char> },
    Fail(Seq<char>),
}

impl DeepView for LoopRequest {
    type V = LoopRequestView;

    open spec fn deep_view(&self) -> LoopRequestView {
        match self {
            LoopRequest::Prepare(steps) => LoopRequestView::Prepare(steps.deep_view()),
            LoopRequest::OpenBacking { path, write } => LoopRequestView::OpenBacking {
                path: path@,
                write: *write,
            },
            LoopRequest::OpenControl { path } => LoopRequestView::OpenControl { path: path@ },
            LoopRequest::GetFree => LoopRequestView::GetFree,
            LoopRequest::OpenDevice { path } => LoopRequestView::OpenDevice { path: path@ },
            LoopRequest::SetFile => LoopRequestView::SetFile,
            LoopRequest::SetStatus(info) => LoopRequestView::SetStatus {
                flags: info.flags,
                file_name: info.file_name@,
            },
            LoopRequest::ClearFile => LoopRequestView::ClearFile,
            LoopRequest::Attached { path } => LoopRequestView::Attached { path: path@ },
            LoopRequest::Fail(m) => LoopRequestView::Fail(m@),
        }
    }
}

/// What an attachment asks for in a state.
pub open spec fn loop_request(
    source: Seq<char>,
    read_only: bool,
    state: LoopState,
) -> LoopRequestView {
    match state {
        LoopState::Module => LoopRequestView::Prepare(
            module_steps("loop"@, ResponseView::Abort("Failed to run modprobe"@)),
        ),
        LoopState::Backing => LoopRequestView::OpenBacking { path: source, write: !read_only },
        LoopState::Control => LoopRequestView::OpenControl { path: "/dev/loop-control"@ },
        LoopState::Number => LoopRequestView::GetFree,
        LoopState::Device(n) => LoopRequestView::OpenDevice { path: loop_path(n) },
        LoopState::SetFile(n) => LoopRequestView::SetFile,
        LoopState::SetStatus(n) => LoopRequestView::SetStatus {
            flags: loop_flags(read_only),
            file_name: loop_name(encode_utf8(source)),
        },
        LoopState::ClearFile(n) => LoopRequestView::ClearFile,
        LoopState::Attached(n) => LoopRequestView::Attached { path: loop_path(n) },
        LoopState::NoBacking => LoopRequestView::Fail(
            "Failed to open loop backing file "@ + source,
        ),
        LoopState::NoControl => LoopRequestView::Fail("Failed to open /dev/loop-control"@),
        LoopState::NoNumber => LoopRequestView::Fail("LOOP_CTL_GET_FREE failed"@),
        LoopState::NoDevice(n) => LoopRequestView::Fail(
            "Failed to open loop device "@ + loop_path(n),
        ),
        LoopState::NoFile(n) => LoopRequestView::Fail("LOOP_SET_FD failed for "@ + loop_path(n)),
        LoopState::NoStatus(n) => LoopRequestView::Fail(
            "LOOP_SET_STATUS64 failed for "@ + loop_path(n),
        ),
    }
}

/// The attachment of a file to a loop device.
#[derive(Debug, PartialEq, Eq)]
pub struct LoopAttach {
    pub source: String,
    pub read_only: bool,
    pub state: LoopState,
}

impl LoopAttach {
    /// Whether this is the beginning of the attachment of a file.
    pub open spec fn begins(self, source: Seq<char>, read_only: bool) -> bool {
        &&& self.source@ == source
        &&& self.read_only == read_only
        &&& self.state == LoopState::Module
    }
}

fn path_of(number: i32) -> (r: String)
    ensures
        r@ == loop_path(number),
{
    cat2("/dev/loop", signed_text(number).as_str())
}

/// The parameters of a loop device for a file.
pub fn loop_info(source: &str, read_only: bool) -> (r: LoopInfo)
    ensures
        r.flags == loop_flags(read_only),
        r.file_name@ == loop_name(encode_utf8(source@)),
{
    let bytes = source.as_bytes();
    let mut file_name: [u8; 64] = [0u8; 64];
    let mut i: usize = 0;
    let ghost named = loop_name(bytes@);
    while i < 64 && i < bytes.len()
        invariant
            i <= 64,
            i <= bytes@.len(),
            named == loop_name(bytes@),
            file_name@.len() == 64,
            forall|j: int| 0 <= j < i ==> file_name@[j] == bytes@[j],
            forall|j: int| i <= j < 64 ==> file_name@[j] == 0,
        decreases 64 - i,
    {
        file_name[i] = bytes[i];
        i = i + 1;
    }
    assert(file_name@ =~= named);
    let flags: u32 = if read_only {
        LO_FLAGS_AUTOCLEAR | LO_FLAGS_READ_ONLY
    } else {
        LO_FLAGS_AUTOCLEAR
    };
    LoopInfo { flags, file_name }
}

impl<'a> Mount<'a> {
    /// Begins to attach the source to a loop device.
    pub fn attach_loop_device(&self, read_only: bool) -> (r: LoopAttach)
        ensures
            r.begins(self.source@, read_only),
    {
        LoopAttach { source: self.source_path().to_owned(), read_only, state: LoopState::Module }
    }
}

fn well(event: LoopEvent) -> (r: bool)
    ensures
        r == went_well(event),
{
    match event {
        LoopEvent::Done => true,
        LoopEvent::Failed => false,
        LoopEvent::Returned(n) => n >= 0,
    }
}

impl LoopAttach {
    /// What is due.
    pub fn request(&self) -> (r: LoopRequest)
        ensures
            r.deep_view() == loop_request(self.source@, self.read_only, self.state),
    {
        match self.state {
            LoopState::Module => LoopRequest::Prepare(load_module("loop")),
            LoopState::Backing => LoopRequest::OpenBacking {
                path: self.source.clone(),
                write: !self.read_only,
            },
            LoopState::Control => LoopRequest::OpenControl { path: "/dev/loop-control".to_owned() },
            LoopState::Number => LoopRequest::GetFree,
            LoopState::Device(n) => LoopRequest::OpenDevice { path: path_of(n) },
            LoopState::SetFile(_) => LoopRequest::SetFile,
            LoopState::SetStatus(_) => LoopRequest::SetStatus(
                loop_info(self.source.as_str(), self.read_only),
            ),
            LoopState::ClearFile(_) => LoopRequest::ClearFile,
            LoopState::Attached(n) => LoopRequest::Attached { path: path_of(n) },
            LoopState::NoBacking => LoopRequest::Fail(
                cat2("Failed to open loop backing file ", self.source.as_str()),
            ),
            LoopState::NoControl => LoopRequest::Fail(
                "Failed to open /dev/loop-control".to_owned(),
            ),
            LoopState::NoNumber => LoopRequest::Fail("LOOP_CTL_GET_FREE failed".to_owned()),
            LoopState::NoDevice(n) => LoopRequest::Fail(
                cat2("Failed to open loop device ", path_of(n).as_str()),
            ),
            LoopState::NoFile(n) => LoopRequest::Fail(
                cat2("LOOP_SET_FD failed for ", path_of(n).as_str()),
            ),
            LoopState::NoStatus(n) => LoopRequest::Fail(
                cat2("LOOP_SET_STATUS64 failed for ", path_of(n).as_str()),
            ),
        }
    }

    /// Goes on after an event.
    pub fn step(&mut self, event: LoopEvent)
        ensures
            final(self).source@ == old(self).source@,
            final(self).read_only == old(self).read_only,
            final(self).state == loop_next(old(self).state, event),
    {
        let ok = well(event);
        self.state = match self.state {
            LoopState::Module => LoopState::Backing,
            LoopState::Backing => if ok {
                LoopState::Control
            } else {
                LoopState::NoBacking
            },
            LoopState::Control => if ok {
                LoopState::Number
            } else {
                LoopState::NoControl
            },
            LoopState::Number => match event {
                LoopEvent::Returned(n) => if n >= 0 {
                    LoopState::Device(n)
                } else {
                    LoopState::NoNumber
                },
                _ => LoopState::NoNumber,
            },
            LoopState::Device(n) => if ok {
                LoopState::SetFile(n)
            } else {
                LoopState::NoDevice(n)
            },
            LoopState::SetFile(n) => if ok {
                LoopState::SetStatus(n)
            } else {
                LoopState::NoFile(n)
            },
            LoopState::SetStatus(n) => if ok {
                LoopState::Attached(n)
            } else {
                LoopState::ClearFile(n)
            },
            LoopState::ClearFile(n) => LoopState::NoStatus(n),
            state => state,
        };
    }
}

// ---------------------------------------------------------------------------
// Laws
// ---------------------------------------------------------------------------
/// Where an attachment stands after a row of events.
pub open spec fn loop_after(events: Seq<LoopEvent>) -> LoopState
    decreases events.len(),
{
    if events.len() == 0 {
        LoopState::Module
    } else {
        loop_next(loop_after(events.drop_last()), events.last())
    }
}

/// A file that was attached is given back where its parameters cannot be set:
/// that failure is reported only after it.
pub proof fn lemma_file_is_given_back(events: Seq<LoopEvent>)
    requires
        loop_after(events) is NoStatus,
    ensures
        exists|k: int|
            0 <= k < events.len() && (#[trigger] loop_after(events.take(k))) is ClearFile,
    decreases events.len(),
{
    if events.len() > 0 {
        let front = events.drop_last();
        assert(front =~= events.take(events.len() - 1));
        if loop_after(front) is NoStatus {
            lemma_file_is_given_back(front);
            let k = choose|k: int|
                0 <= k < front.len() && (#[trigger] loop_after(front.take(k))) is ClearFile;
            assert(front.take(k) =~= events.take(k));
            assert(loop_after(events.take(k)) is ClearFile);
        } else {
            assert(loop_after(events.take(events.len() - 1)) is ClearFile);
        }
    }
}

/// The loop device that a file is attached to is the free one that the kernel
/// named.
pub proof fn lemma_attached_to_free_device(events: Seq<LoopEvent>)
    ensures
        ({
            let state = loop_after(events);
            &&& (state matches LoopState::Device(n) ==> events.contains(LoopEvent::Returned(n)))
            &&& (state matches LoopState::SetFile(n) ==> events.contains(LoopEvent::Returned(n)))
            &&& (state matches LoopState::SetStatus(n) ==> events.contains(LoopEvent::Returned(n)))
            &&& (state matches LoopState::Attached(n) ==> events.contains(LoopEvent::Returned(n)))
        }),
    decreases events.len(),
{
    if events.len() > 0 {
        let front = events.drop_last();
        lemma_attached_to_free_device(front);
        assert(events[events.len() - 1] == events.last());
        assert forall|e: LoopEvent| front.contains(e) implies #[trigger] events.contains(e) by {
            let i = choose|i: int| 0 <= i < front.len() && front[i] == e;
            assert(events[i] == e);
        }
    }
}

/// A loop device is always given back with its last use, and takes no writes
/// exactly where the mount is read-only.
pub proof fn lemma_loop_flags(read_only: bool)
    ensures
        loop_flags(read_only) & LO_FLAGS_AUTOCLEAR != 0,
        loop_flags(read_only) & LO_FLAGS_READ_ONLY != 0 <==> read_only,
{
    assert((4u32 | 1u32) & 4u32 != 0 && (4u32 | 1u32) & 1u32 != 0 && 4u32 & 4u32 != 0 && 4u32 & 1u32
        == 0) by (bit_vector);
}

/// From its beginning an attachment loads the module, opens the file, for writing
/// exactly where the mount is not read-only, and asks for a free loop device; the
/// one that the kernel names is the one that is opened, gets the file and its
/// parameters, and is what comes of it.
pub proof fn lemma_attachment(
    attach: LoopAttach,
    source: Seq<char>,
    read_only: bool,
    n: i32,
    module: LoopEvent,
)
    requires
        attach.begins(source, read_only),
        n >= 0,
    ensures
        ({
            let ask = |state: LoopState| loop_request(attach.source@, attach.read_only, state);
            let s1 = loop_next(attach.state, module);
            let s2 = loop_next(s1, LoopEvent::Done);
            let s3 = loop_next(s2, LoopEvent::Done);
            let s4 = loop_next(s3, LoopEvent::Returned(n));
            let s5 = loop_next(s4, LoopEvent::Done);
            let s6 = loop_next(s5, LoopEvent::Done);
            let s7 = loop_next(s6, LoopEvent::Done);
            let device = "/dev/loop"@ + decimal(n as nat);
            &&& ask(attach.state) is Prepare
            &&& ask(s1) == LoopRequestView::OpenBacking { path: source, write: !read_only }
            &&& ask(s2) == LoopRequestView::OpenControl { path: "/dev/loop-control"@ }
            &&& ask(s3) == LoopRequestView::GetFree
            &&& ask(s4) == LoopRequestView::OpenDevice { path: device }
            &&& ask(s5) == LoopRequestView::SetFile
            &&& ask(s6) is SetStatus
            &&& ask(s6)->flags & LO_FLAGS_READ_ONLY != 0 <==> read_only
            &&& ask(s6)->flags & LO_FLAGS_AUTOCLEAR != 0
            &&& ask(s6)->file_name == loop_name(encode_utf8(source))
            &&& ask(s7) == LoopRequestView::Attached { path: device }
        }),
{
    lemma_loop_flags(read_only);
}

/// The name that a loop device is given is that of the file as far as it fits: it
/// begins with the file's name, and holds nothing but zeros behind it.
pub proof fn lemma_loop_name(bytes: Seq<u8>)
    ensures
        loop_name(bytes).len() == 64,
        bytes.len() <= 64 ==> loop_name(bytes).take(bytes.len() as int) == bytes,
        bytes.len() >= 64 ==> loop_name(bytes) == bytes.take(64),
        forall|i: int| bytes.len() <= i < 64 ==> #[trigger] loop_name(bytes)[i] == 0,
{
    if bytes.len() <= 64 {
        assert(loop_name(bytes).take(bytes.len() as int) =~= bytes);
    }
    if bytes.len() >= 64 {
        assert(loop_name(bytes) =~= bytes.take(64));
    }
}

/// What fails is what is reported: each request that fails ends the attachment with
/// an error of its own, and nothing more is asked for but that a file which was
/// attached is given back.
pub proof fn lemma_attachment_fails(source: Seq<char>, read_only: bool, n: i32)
    ensures
        ({
            let failed = |state: LoopState| loop_next(state, LoopEvent::Failed);
            let ask = |state: LoopState| loop_request(source, read_only, state);
            let path = loop_path(n);
            &&& ask(failed(LoopState::Backing)) == LoopRequestView::Fail(
                "Failed to open loop backing file "@ + source,
            )
            &&& ask(failed(LoopState::Control)) == LoopRequestView::Fail(
                "Failed to open /dev/loop-control"@,
            )
            &&& ask(failed(LoopState::Number)) == LoopRequestView::Fail(
                "LOOP_CTL_GET_FREE failed"@,
            )
            &&& ask(failed(LoopState::Device(n))) == LoopRequestView::Fail(
                "Failed to open loop device "@ + path,
            )
            &&& ask(failed(LoopState::SetFile(n))) == LoopRequestView::Fail(
                "LOOP_SET_FD failed for "@ + path,
            )
            &&& ask(failed(LoopState::SetStatus(n))) == LoopRequestView::ClearFile
            &&& ask(failed(failed(LoopState::SetStatus(n)))) == LoopRequestView::Fail(
                "LOOP_SET_STATUS64 failed for "@ + path,
            )
            &&& n < 0 ==> loop_next(LoopState::Number, LoopEvent::Returned(n))
                == LoopState::NoNumber
        }),
{
}

/// The requests are those of the loop driver, and so are its flags.
pub proof fn lemma_requests_of_the_driver()
    ensures
        LOOP_SET_FD == 0x4C00,
        LOOP_CLR_FD == LOOP_SET_FD + 1,
        LOOP_SET_STATUS64 == LOOP_SET_FD + 4,
        LOOP_CTL_GET_FREE == 0x4C82,
        LO_FLAGS_READ_ONLY == 1,
        LO_FLAGS_AUTOCLEAR == 4,
        LO_NAME_SIZE == 64,
{
}

} // verus!
