//! Device numbers: one number for a major and a minor one.
use vstd::prelude::*;

use crate::text::{cat2, cat3, decimal_text};
#[allow(unused_imports)]
use crate::text::decimal;

verus! {

/// The major number of a device.
pub open spec fn major_of(dev: u64) -> u32 {
    (((dev & 0x0000_0000_000f_ff00) >> 8) | ((dev & 0xffff_f000_0000_0000) >> 32)) as u32
}

/// The minor number of a device.
pub open spec fn minor_of(dev: u64) -> u32 {
    ((dev & 0x0000_0000_0000_00ff) | ((dev & 0x0000_0fff_fff0_0000) >> 12)) as u32
}

/// The device of a major and a minor number.
pub open spec fn device_of_numbers(major: u64, minor: u64) -> u64 {
    ((major & 0xffff_f000) << 32) | ((major & 0x0000_0fff) << 8) | ((minor & 0xffff_ff00) << 12) | (
    minor & 0x0000_00ff)
}

/// `major` of the crate `libc`, by way of `nix`: it puts together two runs of
/// bits of the device number.
pub assume_specification[ nix::libc::major ](dev: nix::libc::dev_t) -> (r: nix::libc::c_uint)
    ensures
        r == major_of(dev),
;

/// `minor` of the crate `libc`, by way of `nix`: it puts together two runs of
/// bits of the device number.
pub assume_specification[ nix::libc::minor ](dev: nix::libc::dev_t) -> (r: nix::libc::c_uint)
    ensures
        r == minor_of(dev),
;

/// `makedev` of the crate `nix`: it lays the bits of both numbers out in one.
pub assume_specification[ nix::sys::stat::makedev ](major: u64, minor: u64) -> (r:
    nix::libc::dev_t)
    ensures
        r == device_of_numbers(major, minor),
;

/// A device as the kernel writes it: major and minor number in decimal.
pub open spec fn numbers_text(dev: u64) -> Seq<char> {
    decimal(major_of(dev) as nat) + ":"@ + decimal(minor_of(dev) as nat)
}

/// The major number.
pub fn device_major(dev: u64) -> (r: u32)
    ensures
        r == major_of(dev),
{
    nix::libc::major(dev)
}

/// The minor number.
pub fn device_minor(dev: u64) -> (r: u32)
    ensures
        r == minor_of(dev),
{
    nix::libc::minor(dev)
}

/// `major:minor` in decimal.
pub fn device_numbers(dev: u64) -> (r: String)
    ensures
        r@ == numbers_text(dev),
{
    cat3(
        decimal_text(device_major(dev) as u64).as_str(),
        ":",
        decimal_text(device_minor(dev) as u64).as_str(),
    )
}

/// Where udev keeps what it knows of a block device.
pub open spec fn udev_data(rdev: u64) -> Seq<char> {
    "/run/udev/data/b"@ + numbers_text(rdev)
}

/// Where udev keeps what it knows of a block device.
pub fn udev_data_path(rdev: u64) -> (r: String)
    ensures
        r@ == udev_data(rdev),
{
    cat2("/run/udev/data/b", device_numbers(rdev).as_str())
}

/// A device gives back the numbers that it was made from.
pub proof fn lemma_device_round_trip(major: u32, minor: u32)
    ensures
        major_of(device_of_numbers(major as u64, minor as u64)) == major,
        minor_of(device_of_numbers(major as u64, minor as u64)) == minor,
{
    let a = major as u64;
    let b = minor as u64;
    assert(a <= 0xffff_ffff && b <= 0xffff_ffff);
    assert(({
        let dev = ((a & 0xffff_f000) << 32) | ((a & 0x0000_0fff) << 8) | ((b & 0xffff_ff00) << 12)
            | (b & 0x0000_00ff);
        &&& (((dev & 0x0000_0000_000f_ff00) >> 8) | ((dev & 0xffff_f000_0000_0000) >> 32)) == a
        &&& ((dev & 0x0000_0000_0000_00ff) | ((dev & 0x0000_0fff_fff0_0000) >> 12)) == b
    })) by (bit_vector)
        requires
            a <= 0xffff_ffff,
            b <= 0xffff_ffff,
    ;
}

/// A device is written by its major number, a colon and its minor number, and udev
/// keeps what it knows of it under that.
pub proof fn lemma_written_numbers(major: u32, minor: u32)
    ensures
        ({
            let dev = device_of_numbers(major as u64, minor as u64);
            let text = decimal(major as nat) + seq![':'] + decimal(minor as nat);
            &&& numbers_text(dev) == text
            &&& udev_data(dev) == "/run/udev/data/b"@ + text
        }),
{
    lemma_device_round_trip(major, minor);
    reveal_strlit(":");
    assert(":"@ =~= seq![':']);
}

} // verus!
