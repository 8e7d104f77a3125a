//! The identifier at the start of an ELF file.

use vstd::prelude::*;
use vstd::std_specs::convert::TryFromSpecImpl;

verus! {

/// The length of the identifier in bytes.
pub const IDENT_LEN: usize = 16;

/// The only class that is read: 32-bit objects.
pub const ELFCLASS32: u8 = 1;

/// The only data encoding that is read: little endian.
pub const ELFDATA2LSB: u8 = 1;

/// The only version of the format.
pub const EV_CURRENT: u8 = 1;

/// The initial bytes of the file: they mark it as an object file and say
/// how to read the rest. The seven bytes of padding at the end are not
/// kept.
#[derive(Debug, Clone, Copy, PartialEq, Eq)]
pub struct Identifier {
    /// 0x7f, 'E', 'L', 'F'
    pub magic: [u8; 4],
    pub class: u8,
    pub data: u8,
    pub version: u8,
    pub os_abi: u8,
    pub abi_version: u8,
}

/// The four bytes that every ELF file starts with.
pub open spec fn elf_magic() -> Seq<u8> {
    seq![0x7fu8, 0x45u8, 0x4cu8, 0x46u8]
}

/// What the sixteen bytes of an identifier are read as, or why they are
/// refused. The checks come in the order of the bytes.
pub open spec fn identifier_of(b: Seq<u8>) -> Result<Identifier, &'static str> {
    if b.len() != IDENT_LEN {
        Err("Elf32_Ehdr.e_ident requires exactly 16 bytes")
    } else if b.subrange(0, 4) != elf_magic() {
        Err("Invalid ELF magic")
    } else if b[4] != ELFCLASS32 {
        Err("Unsupported ELF class, only ELFCLASS32 is supported")
    } else if b[5] != ELFDATA2LSB {
        Err("Unsupported ELF data encoding, only little endian is supported")
    } else if b[6] != EV_CURRENT {
        Err("Unsupported ELF identifier version")
    } else {
        Ok(
            Identifier {
                magic: [0x7fu8, 0x45u8, 0x4cu8, 0x46u8],
                class: b[4],
                data: b[5],
                version: b[6],
                os_abi: b[7],
                abi_version: b[8],
            },
        )
    }
}

impl<'a> TryFrom<&'a [u8]> for Identifier {
    type Error = &'static str;

    fn try_from(b: &'a [u8]) -> (r: Result<Self, Self::Error>) {
        if b.len() != IDENT_LEN {
            return Err("Elf32_Ehdr.e_ident requires exactly 16 bytes");
        }
        if b[0] != 0x7f || b[1] != 0x45 || b[2] != 0x4c || b[3] != 0x46 {
            assert(b@.subrange(0, 4) != elf_magic());
            return Err("Invalid ELF magic");
        }
        assert(b@.subrange(0, 4) =~= elf_magic());
        if b[4] != ELFCLASS32 {
            return Err("Unsupported ELF class, only ELFCLASS32 is supported");
        }
        if b[5] != ELFDATA2LSB {
            return Err("Unsupported ELF data encoding, only little endian is supported");
        }
        if b[6] != EV_CURRENT {
            return Err("Unsupported ELF identifier version");
        }
        Ok(
            Identifier {
                magic: [0x7f, 0x45, 0x4c, 0x46],
                class: b[4],
                data: b[5],
                version: b[6],
                os_abi: b[7],
                abi_version: b[8],
            },
        )
    }
}

impl<'a> TryFromSpecImpl<&'a [u8]> for Identifier {
    open spec fn obeys_try_from_spec() -> bool {
        true
    }

    open spec fn try_from_spec(b: &'a [u8]) -> Result<Self, Self::Error> {
        identifier_of(b@)
    }
}

} // verus!
