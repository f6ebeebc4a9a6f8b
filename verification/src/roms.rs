//! System ROM installation.
//!
//! The C64 ROMs are copyrighted and not distributed with this project: the
//! program reads dumps from disk (basic 8 KB, kernal 8 KB, characters 4 KB)
//! and hands their bytes to `install_rom`, which checks the size and copies
//! them into the bus.
use vstd::prelude::*;
use crate::bus::C64Bus;

verus! {

/// Declares the standard library's `std::io::Error` to the verifier, opaque,
/// so that `RomError::Io` can carry it; nothing is claimed of its contents.
#[verifier::external_type_specification]
#[verifier::external_body]
pub struct ExIoError(std::io::Error);

/// Why the system ROMs could not be loaded.
#[derive(Debug)]
pub enum RomError {
    /// No candidate file could be read.
    Io(std::io::Error),
    /// A ROM file had the wrong size.
    WrongSize { name: &'static str, expected: usize, got: usize },
}

impl From<std::io::Error> for RomError {
    fn from(e: std::io::Error) -> (r: RomError) {
        RomError::Io(e)
    }
}

impl vstd::std_specs::convert::FromSpecImpl<std::io::Error> for RomError {
    open spec fn obeys_from_spec() -> bool {
        true
    }

    open spec fn from_spec(e: std::io::Error) -> RomError {
        RomError::Io(e)
    }
}

/// The three system ROMs.
#[derive(Clone, Copy, PartialEq, Eq, Structural, Debug)]
pub enum Rom {
    /// BASIC, $A000-$BFFF.
    Basic,
    /// KERNAL, $E000-$FFFF.
    Kernal,
    /// Character generator.
    Chargen,
}

/// Size in bytes of a ROM image.
pub open spec fn rom_size(r: Rom) -> usize {
    match r {
        Rom::Basic => 0x2000,
        Rom::Kernal => 0x2000,
        Rom::Chargen => 0x1000,
    }
}

/// The name a ROM goes by in error reports.
pub open spec fn rom_name(r: Rom) -> &'static str {
    match r {
        Rom::Basic => "basic",
        Rom::Kernal => "kernal",
        Rom::Chargen => "chargen",
    }
}

/// The bytes of a ROM as the bus holds them.
pub open spec fn rom_bytes(bus: C64Bus, r: Rom) -> Seq<u8> {
    match r {
        Rom::Basic => bus.basic_rom@,
        Rom::Kernal => bus.kernal_rom@,
        Rom::Chargen => bus.char_rom@,
    }
}

/// `b1` is `b0` with ROM `r` replaced by `data`.
pub open spec fn rom_installed(b0: C64Bus, b1: C64Bus, r: Rom, data: Seq<u8>) -> bool {
    &&& rom_bytes(b1, r) == data
    &&& b1.ram == b0.ram
    &&& b1.io == b0.io
    &&& b1.port_dir == b0.port_dir
    &&& b1.port_data == b0.port_data
    &&& r != Rom::Basic ==> b1.basic_rom == b0.basic_rom
    &&& r != Rom::Kernal ==> b1.kernal_rom == b0.kernal_rom
    &&& r != Rom::Chargen ==> b1.char_rom == b0.char_rom
}

impl Rom {
    /// Size in bytes of this ROM's image.
    pub fn size(self) -> (n: usize)
        ensures
            n == rom_size(self),
    {
        match self {
            Rom::Basic => 0x2000,
            Rom::Kernal => 0x2000,
            Rom::Chargen => 0x1000,
        }
    }

    /// The name this ROM goes by in error reports.
    pub fn name(self) -> (s: &'static str)
        ensures
            s == rom_name(self),
    {
        match self {
            Rom::Basic => "basic",
            Rom::Kernal => "kernal",
            Rom::Chargen => "chargen",
        }
    }
}

/// Copy `data` over a ROM array of the same size.
fn copy_rom<const N: usize>(dst: &mut [u8; N], data: &[u8])
    requires
        data@.len() == N,
    ensures
        final(dst)@ == data@,
{
    let mut i: usize = 0;
    while i < N
        invariant
            i <= N,
            data@.len() == N,
            dst@.len() == N,
            forall|j: int| 0 <= j < i ==> dst@[j] == data@[j],
        decreases N - i,
    {
        dst[i] = data[i];
        i = i + 1;
    }
    assert(dst@ =~= data@);
}

/// Install the image of ROM `which` into the bus, after checking that it has
/// the right size; on a wrong size the bus is left as it was.
pub fn install_rom(bus: &mut C64Bus, which: Rom, data: &[u8]) -> (r: Result<(), RomError>)
    ensures
        r is Ok <==> data@.len() == rom_size(which),
        r is Ok ==> rom_installed(*old(bus), *final(bus), which, data@),
        r is Err ==> *final(bus) == *old(bus),
        r matches Err(e) ==> (e matches RomError::WrongSize { name, expected, got } && name == rom_name(which)
            && expected == rom_size(which) && got == data@.len()),
{
    let expected = which.size();
    if data.len() != expected {
        return Err(RomError::WrongSize { name: which.name(), expected, got: data.len() });
    }
    match which {
        Rom::Basic => copy_rom(&mut bus.basic_rom, data),
        Rom::Kernal => copy_rom(&mut bus.kernal_rom, data),
        Rom::Chargen => copy_rom(&mut bus.char_rom, data),
    }
    Ok(())
}

} // verus!
