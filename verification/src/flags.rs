//! The flags of mount(2), as numbers.
use nix::mount::MsFlags;
use vstd::prelude::*;

verus! {

pub const MS_RDONLY: u64 = 0x01;

pub const MS_NOSUID: u64 = 0x02;

pub const MS_NODEV: u64 = 0x04;

pub const MS_NOEXEC: u64 = 0x08;

pub const MS_SYNCHRONOUS: u64 = 0x10;

pub const MS_REMOUNT: u64 = 0x20;

pub const MS_DIRSYNC: u64 = 0x80;

pub const MS_NOATIME: u64 = 0x0400;

pub const MS_NODIRATIME: u64 = 0x0800;

pub const MS_BIND: u64 = 0x1000;

pub const MS_MOVE: u64 = 0x2000;

pub const MS_REC: u64 = 0x4000;

pub const MS_SILENT: u64 = 0x8000;

pub const MS_RELATIME: u64 = 0x200000;

pub const MS_STRICTATIME: u64 = 0x1000000;

pub const MS_LAZYTIME: u64 = 0x2000000;

/// The number of `MsFlags::MS_RDONLY` in the crate `nix`, which takes it from the
/// constant of that name in `libc`: the flag of the Linux kernel.
#[verifier::external_body]
pub(crate) fn ms_rdonly() -> (r: u64)
    ensures
        r == MS_RDONLY,
{
    MsFlags::MS_RDONLY.bits() as u64
}

/// The number of `MsFlags::MS_NOSUID` in the crate `nix`, which takes it from the
/// constant of that name in `libc`: the flag of the Linux kernel.
#[verifier::external_body]
pub(crate) fn ms_nosuid() -> (r: u64)
    ensures
        r == MS_NOSUID,
{
    MsFlags::MS_NOSUID.bits() as u64
}

/// The number of `MsFlags::MS_NODEV` in the crate `nix`, which takes it from the
/// constant of that name in `libc`: the flag of the Linux kernel.
#[verifier::external_body]
pub(crate) fn ms_nodev() -> (r: u64)
    ensures
        r == MS_NODEV,
{
    MsFlags::MS_NODEV.bits() as u64
}

/// The number of `MsFlags::MS_NOEXEC` in the crate `nix`, which takes it from the
/// constant of that name in `libc`: the flag of the Linux kernel.
#[verifier::external_body]
pub(crate) fn ms_noexec() -> (r: u64)
    ensures
        r == MS_NOEXEC,
{
    MsFlags::MS_NOEXEC.bits() as u64
}

/// The number of `MsFlags::MS_SYNCHRONOUS` in the crate `nix`, which takes it from the
/// constant of that name in `libc`: the flag of the Linux kernel.
#[verifier::external_body]
pub(crate) fn ms_synchronous() -> (r: u64)
    ensures
        r == MS_SYNCHRONOUS,
{
    MsFlags::MS_SYNCHRONOUS.bits() as u64
}

/// The number of `MsFlags::MS_REMOUNT` in the crate `nix`, which takes it from the
/// constant of that name in `libc`: the flag of the Linux kernel.
#[verifier::external_body]
pub(crate) fn ms_remount() -> (r: u64)
    ensures
        r == MS_REMOUNT,
{
    MsFlags::MS_REMOUNT.bits() as u64
}

/// The number of `MsFlags::MS_DIRSYNC` in the crate `nix`, which takes it from the
/// constant of that name in `libc`: the flag of the Linux kernel.
#[verifier::external_body]
pub(crate) fn ms_dirsync() -> (r: u64)
    ensures
        r == MS_DIRSYNC,
{
    MsFlags::MS_DIRSYNC.bits() as u64
}

/// The number of `MsFlags::MS_NOATIME` in the crate `nix`, which takes it from the
/// constant of that name in `libc`: the flag of the Linux kernel.
#[verifier::external_body]
pub(crate) fn ms_noatime() -> (r: u64)
    ensures
        r == MS_NOATIME,
{
    MsFlags::MS_NOATIME.bits() as u64
}

/// The number of `MsFlags::MS_NODIRATIME` in the crate `nix`, which takes it from the
/// constant of that name in `libc`: the flag of the Linux kernel.
#[verifier::external_body]
pub(crate) fn ms_nodiratime() -> (r: u64)
    ensures
        r == MS_NODIRATIME,
{
    MsFlags::MS_NODIRATIME.bits() as u64
}

/// The number of `MsFlags::MS_BIND` in the crate `nix`, which takes it from the
/// constant of that name in `libc`: the flag of the Linux kernel.
#[verifier::external_body]
pub(crate) fn ms_bind() -> (r: u64)
    ensures
        r == MS_BIND,
{
    MsFlags::MS_BIND.bits() as u64
}

/// The number of `MsFlags::MS_MOVE` in the crate `nix`, which takes it from the
/// constant of that name in `libc`: the flag of the Linux kernel.
#[verifier::external_body]
pub(crate) fn ms_move() -> (r: u64)
    ensures
        r == MS_MOVE,
{
    MsFlags::MS_MOVE.bits() as u64
}

/// The number of `MsFlags::MS_REC` in the crate `nix`, which takes it from the
/// constant of that name in `libc`: the flag of the Linux kernel.
#[verifier::external_body]
pub(crate) fn ms_rec() -> (r: u64)
    ensures
        r == MS_REC,
{
    MsFlags::MS_REC.bits() as u64
}

/// The number of `MsFlags::MS_SILENT` in the crate `nix`, which takes it from the
/// constant of that name in `libc`: the flag of the Linux kernel.
#[verifier::external_body]
pub(crate) fn ms_silent() -> (r: u64)
    ensures
        r == MS_SILENT,
{
    MsFlags::MS_SILENT.bits() as u64
}

/// The number of `MsFlags::MS_RELATIME` in the crate `nix`, which takes it from the
/// constant of that name in `libc`: the flag of the Linux kernel.
#[verifier::external_body]
pub(crate) fn ms_relatime() -> (r: u64)
    ensures
        r == MS_RELATIME,
{
    MsFlags::MS_RELATIME.bits() as u64
}

/// The number of `MsFlags::MS_STRICTATIME` in the crate `nix`, which takes it from the
/// constant of that name in `libc`: the flag of the Linux kernel.
#[verifier::external_body]
pub(crate) fn ms_strictatime() -> (r: u64)
    ensures
        r == MS_STRICTATIME,
{
    MsFlags::MS_STRICTATIME.bits() as u64
}

/// The number of `MsFlags::MS_LAZYTIME` in the crate `nix`, which takes it from the
/// constant of that name in `libc`: the flag of the Linux kernel.
#[verifier::external_body]
pub(crate) fn ms_lazytime() -> (r: u64)
    ensures
        r == MS_LAZYTIME,
{
    MsFlags::MS_LAZYTIME.bits() as u64
}

/// The flags are those of the Linux kernel.
pub proof fn lemma_flags_of_the_kernel()
    ensures
        MS_RDONLY == 1,
        MS_NOSUID == 2,
        MS_NODEV == 4,
        MS_NOEXEC == 8,
        MS_SYNCHRONOUS == 16,
        MS_REMOUNT == 32,
        MS_DIRSYNC == 128,
        MS_NOATIME == 1024,
        MS_NODIRATIME == 2048,
        MS_BIND == 4096,
        MS_MOVE == 8192,
        MS_REC == 16384,
        MS_SILENT == 32768,
        MS_RELATIME == 0x20_0000,
        MS_STRICTATIME == 0x100_0000,
        MS_LAZYTIME == 0x200_0000,
{
}

} // verus!
