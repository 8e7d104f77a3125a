//! Protection and flag bits of the host calls that map, protect and unmap
//! pages, in the layout of Linux.

use crate::elf::pheader::Flags;
use vstd::prelude::*;
use vstd::std_specs::convert::FromSpecImpl;
use vstd::std_specs::ops::BitOrSpecImpl;

verus! {

/// Page protection bits. Not an enum: NONE, READ, WRITE and EXEC are not
/// mutually exclusive.
#[derive(Debug, Clone, Copy, PartialEq, Eq)]
pub struct MmapProt(pub i32);

#[allow(non_snake_case)]
impl MmapProt {
    /// no permissions
    pub fn NONE() -> (prot: MmapProt)
        ensures
            prot == MmapProt(0x00),
    {
        MmapProt(0x00)
    }

    /// pages can be read
    pub fn READ() -> (prot: MmapProt)
        ensures
            prot == MmapProt(0x01),
    {
        MmapProt(0x01)
    }

    /// pages can be written
    pub fn WRITE() -> (prot: MmapProt)
        ensures
            prot == MmapProt(0x02),
    {
        MmapProt(0x02)
    }

    /// pages can be executed
    pub fn EXEC() -> (prot: MmapProt)
        ensures
            prot == MmapProt(0x04),
    {
        MmapProt(0x04)
    }

    pub fn bits(self) -> (bits: i32)
        ensures
            bits == self.0,
    {
        self.0
    }
}

impl core::ops::BitOr for MmapProt {
    type Output = MmapProt;

    fn bitor(self, rhs: MmapProt) -> (r: MmapProt) {
        MmapProt(self.0 | rhs.0)
    }
}

impl BitOrSpecImpl for MmapProt {
    open spec fn obeys_bitor_spec() -> bool {
        true
    }

    open spec fn bitor_req(self, rhs: MmapProt) -> bool {
        true
    }

    open spec fn bitor_spec(self, rhs: MmapProt) -> MmapProt {
        MmapProt(self.0 | rhs.0)
    }
}

/// The protection that the permissions of a segment ask for: each of R, W
/// and X gives READ, WRITE and EXEC, and a segment without any of them
/// gets NONE.
pub open spec fn prot_of(flags: Flags) -> MmapProt {
    MmapProt(
        (if flags.0 & 0x4 != 0 {
            0x01i32
        } else {
            0x00i32
        }) | (if flags.0 & 0x2 != 0 {
            0x02i32
        } else {
            0x00i32
        }) | (if flags.0 & 0x1 != 0 {
            0x04i32
        } else {
            0x00i32
        }),
    )
}

impl From<Flags> for MmapProt {
    fn from(value: Flags) -> (r: MmapProt) {
        let mut prot = MmapProt::NONE();
        let bits = value.bits();
        if (bits & Flags::R().bits()) != 0 {
            prot = prot | MmapProt::READ();
        }
        if (bits & Flags::W().bits()) != 0 {
            prot = prot | MmapProt::WRITE();
        }
        if (bits & Flags::X().bits()) != 0 {
            prot = prot | MmapProt::EXEC();
        }
        proof {
            let r: i32 = if value.0 & 0x4 != 0 {
                0x01i32
            } else {
                0x00i32
            };
            let w: i32 = if value.0 & 0x2 != 0 {
                0x02i32
            } else {
                0x00i32
            };
            assert(0x00i32 | 0x01i32 == 0x01i32 && r | 0x00i32 == r && (r | w) | 0x00i32 == r | w)
                by (bit_vector);
        }
        prot
    }
}

impl FromSpecImpl<Flags> for MmapProt {
    open spec fn obeys_from_spec() -> bool {
        true
    }

    open spec fn from_spec(value: Flags) -> MmapProt {
        prot_of(value)
    }
}

/// Flags of the call that maps pages.
#[derive(Debug, Clone, Copy, PartialEq, Eq)]
pub struct MmapFlags(pub i32);

#[allow(non_snake_case)]
impl MmapFlags {
    /// share changes
    pub fn SHARED() -> (flags: MmapFlags)
        ensures
            flags == MmapFlags(0x0001),
    {
        MmapFlags(0x0001)
    }

    /// changes are private
    pub fn PRIVATE() -> (flags: MmapFlags)
        ensures
            flags == MmapFlags(0x0002),
    {
        MmapFlags(0x0002)
    }

    /// the address of the mapping must be exactly as requested
    pub fn FIXED() -> (flags: MmapFlags)
        ensures
            flags == MmapFlags(0x0010),
    {
        MmapFlags(0x0010)
    }

    /// MAP_FIXED_NOREPLACE (Linux >= 5.4)
    pub fn NOREPLACE() -> (flags: MmapFlags)
        ensures
            flags == MmapFlags(0x100000),
    {
        MmapFlags(0x100000)
    }

    /// allocated from memory, swap space
    pub fn ANONYMOUS() -> (flags: MmapFlags)
        ensures
            flags == MmapFlags(0x20),
    {
        MmapFlags(0x20)
    }

    /// the mapping is used for a stack
    pub fn STACK() -> (flags: MmapFlags)
        ensures
            flags == MmapFlags(0x4000),
    {
        MmapFlags(0x4000)
    }

    /// omit from dumps
    pub fn CONCEAL() -> (flags: MmapFlags)
        ensures
            flags == MmapFlags(0x8000),
    {
        MmapFlags(0x8000)
    }

    pub fn bits(self) -> (bits: i32)
        ensures
            bits == self.0,
    {
        self.0
    }
}

impl core::ops::BitOr for MmapFlags {
    type Output = MmapFlags;

    fn bitor(self, rhs: MmapFlags) -> (r: MmapFlags) {
        MmapFlags(self.0 | rhs.0)
    }
}

impl BitOrSpecImpl for MmapFlags {
    open spec fn obeys_bitor_spec() -> bool {
        true
    }

    open spec fn bitor_req(self, rhs: MmapFlags) -> bool {
        true
    }

    open spec fn bitor_spec(self, rhs: MmapFlags) -> MmapFlags {
        MmapFlags(self.0 | rhs.0)
    }
}

} // verus!
