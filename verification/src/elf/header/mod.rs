//! The ELF header.

pub mod ident;
pub mod machine;
pub mod ty;

use crate::elf::header::ident::{
    elf_magic, identifier_of, Identifier, ELFCLASS32, ELFDATA2LSB, EV_CURRENT, IDENT_LEN,
};
use crate::elf::header::machine::{Machine, EM_ARM};
use crate::elf::header::ty::Type;
use crate::util::{
    le16, le16_at, le16_bytes, le32, le32_at, le32_bytes, lemma_le16_holds, lemma_le32_holds,
};
use vstd::prelude::*;
use vstd::slice::slice_subrange;
use vstd::std_specs::convert::TryFromSpecImpl;

verus! {

/// The length of the ELF header in bytes.
pub const HEADER_LEN: usize = 52;

/// The value of `e_type` for a static executable.
pub const ET_EXEC: u16 = 2;

/// The ELF header in memory, Elf32_Ehdr of
/// https://gabi.xinuos.com/elf/02-eheader.html
///
/// The types follow Table 1.1, 32-Bit Data Types, of
/// https://gabi.xinuos.com/elf/01-intro.html#data-representation
///
/// | Elf32_ | Rust |
/// | ------ | ---- |
/// | Addr   | u32  |
/// | Off    | u32  |
/// | Half   | u16  |
/// | Word   | u32  |
/// | Sword  | i32  |
#[derive(Debug, Clone, Copy, PartialEq, Eq)]
pub struct Header {
    /// the initial bytes mark the file as an object file and say how to
    /// read its contents
    pub ident: Identifier,
    /// the object file type; after parsing always `Executable`
    pub ty: Type,
    pub machine: Machine,
    /// the object file version, always EV_CURRENT (1)
    pub version: u32,
    /// the virtual address to which the system first transfers control. If
    /// the file has no entry point, this member holds zero
    pub entry: u32,
    /// the program header table's file offset in bytes, or zero
    pub phoff: u32,
    /// the section header table's file offset in bytes, or zero
    pub shoff: u32,
    /// processor-specific flags
    pub flags: u32,
    /// the ELF header's size in bytes
    pub ehsize: u16,
    /// the size in bytes of one entry in the program header table; all
    /// entries are the same size
    pub phentsize: u16,
    /// the number of entries in the program header table, or zero
    pub phnum: u16,
    /// the size in bytes of one section header
    pub shentsize: u16,
    /// the number of entries in the section header table, or zero
    pub shnum: u16,
    /// the section header table index of the section name string table
    pub shstrndx: u16,
}

/// What a buffer is read as, or why it is refused. The checks come in this
/// order: the length, the identifier, the type, the machine.
pub open spec fn header_of(b: Seq<u8>) -> Result<Header, &'static str> {
    if b.len() < HEADER_LEN {
        Err("not enough bytes for Elf32_Ehdr (ELF header)")
    } else {
        match identifier_of(b.subrange(0, IDENT_LEN as int)) {
            Err(e) => Err(e),
            Ok(ident) => if le16_at(b, 16) != ET_EXEC {
                Err("Unsupported ELF type, only ET_EXEC (static executables) is supported")
            } else if le16_at(b, 18) != EM_ARM {
                Err("Unsupported machine")
            } else {
                Ok(
                    Header {
                        ident,
                        ty: Type::Executable,
                        machine: Machine::EM_ARM,
                        version: le32_at(b, 20),
                        entry: le32_at(b, 24),
                        phoff: le32_at(b, 28),
                        shoff: le32_at(b, 32),
                        flags: le32_at(b, 36),
                        ehsize: le16_at(b, 40),
                        phentsize: le16_at(b, 42),
                        phnum: le16_at(b, 44),
                        shentsize: le16_at(b, 46),
                        shnum: le16_at(b, 48),
                        shstrndx: le16_at(b, 50),
                    },
                )
            },
        }
    }
}

/// The buffer passes every check of the header: it is long enough, starts
/// with the magic bytes, and names the 32-bit class, the little-endian
/// encoding, the current version, a static executable, and ARM.
pub open spec fn header_accepted(b: Seq<u8>) -> bool {
    &&& b.len() >= HEADER_LEN
    &&& b.subrange(0, 4) == elf_magic()
    &&& b[4] == ELFCLASS32
    &&& b[5] == ELFDATA2LSB
    &&& b[6] == EV_CURRENT
    &&& le16_at(b, 16) == ET_EXEC
    &&& le16_at(b, 18) == EM_ARM
}

/// A header is read if and only if the buffer passes every check: one
/// field that is not as asked for is enough to refuse the buffer. What is
/// read holds the fields as the buffer has them.
pub proof fn lemma_header_accepted(b: Seq<u8>)
    ensures
        header_of(b) is Ok <==> header_accepted(b),
        header_of(b) matches Ok(h) ==> {
            &&& h.ident.magic@ == elf_magic()
            &&& h.ident.class == b[4]
            &&& h.ident.data == b[5]
            &&& h.ident.version == b[6]
            &&& h.ident.os_abi == b[7]
            &&& h.ident.abi_version == b[8]
            &&& h.ty == Type::Executable
            &&& h.machine == Machine::EM_ARM
            &&& h.version == le32_at(b, 20)
            &&& h.entry == le32_at(b, 24)
            &&& h.phoff == le32_at(b, 28)
            &&& h.shoff == le32_at(b, 32)
            &&& h.flags == le32_at(b, 36)
            &&& h.ehsize == le16_at(b, 40)
            &&& h.phentsize == le16_at(b, 42)
            &&& h.phnum == le16_at(b, 44)
            &&& h.shentsize == le16_at(b, 46)
            &&& h.shnum == le16_at(b, 48)
            &&& h.shstrndx == le16_at(b, 50)
        },
{
    if b.len() >= HEADER_LEN {
        let id = b.subrange(0, IDENT_LEN as int);
        assert(id.subrange(0, 4) =~= b.subrange(0, 4));
    }
}

/// A header as reading gives it.
pub open spec fn header_wf(h: Header) -> bool {
    &&& h.ident.magic@ == elf_magic()
    &&& h.ident.class == ELFCLASS32
    &&& h.ident.data == ELFDATA2LSB
    &&& h.ident.version == EV_CURRENT
    &&& h.ty == Type::Executable
}

/// Byte `i` of the 52 bytes that hold a header. The padding of the
/// identifier is zero.
pub open spec fn header_byte(h: Header, i: int) -> u8 {
    if i < 4 {
        h.ident.magic@[i]
    } else if i == 4 {
        h.ident.class
    } else if i == 5 {
        h.ident.data
    } else if i == 6 {
        h.ident.version
    } else if i == 7 {
        h.ident.os_abi
    } else if i == 8 {
        h.ident.abi_version
    } else if i < 16 {
        0
    } else if i < 18 {
        le16_bytes(ET_EXEC)[i - 16]
    } else if i < 20 {
        le16_bytes(EM_ARM)[i - 18]
    } else if i < 24 {
        le32_bytes(h.version)[i - 20]
    } else if i < 28 {
        le32_bytes(h.entry)[i - 24]
    } else if i < 32 {
        le32_bytes(h.phoff)[i - 28]
    } else if i < 36 {
        le32_bytes(h.shoff)[i - 32]
    } else if i < 40 {
        le32_bytes(h.flags)[i - 36]
    } else if i < 42 {
        le16_bytes(h.ehsize)[i - 40]
    } else if i < 44 {
        le16_bytes(h.phentsize)[i - 42]
    } else if i < 46 {
        le16_bytes(h.phnum)[i - 44]
    } else if i < 48 {
        le16_bytes(h.shentsize)[i - 46]
    } else if i < 50 {
        le16_bytes(h.shnum)[i - 48]
    } else {
        le16_bytes(h.shstrndx)[i - 50]
    }
}

/// The 52 bytes that hold a header.
pub open spec fn header_bytes(h: Header) -> Seq<u8> {
    Seq::new(HEADER_LEN as nat, |i: int| header_byte(h, i))
}

/// A buffer that starts with the bytes of a header is read as that very
/// header, whatever follows them.
pub proof fn lemma_header_round_trip(h: Header, b: Seq<u8>)
    requires
        header_wf(h),
        b.len() >= HEADER_LEN,
        b.subrange(0, HEADER_LEN as int) == header_bytes(h),
    ensures
        header_of(b) == Ok::<Header, &'static str>(h),
{
    assert forall|i: int| 0 <= i < 52 implies b[i] == header_byte(h, i) by {
        assert(b[i] == b.subrange(0, HEADER_LEN as int)[i]);
    }
    assert(b.subrange(0, 4) =~= elf_magic());
    lemma_le16_holds(b, 16, ET_EXEC);
    lemma_le16_holds(b, 18, EM_ARM);
    lemma_le32_holds(b, 20, h.version);
    lemma_le32_holds(b, 24, h.entry);
    lemma_le32_holds(b, 28, h.phoff);
    lemma_le32_holds(b, 32, h.shoff);
    lemma_le32_holds(b, 36, h.flags);
    lemma_le16_holds(b, 40, h.ehsize);
    lemma_le16_holds(b, 42, h.phentsize);
    lemma_le16_holds(b, 44, h.phnum);
    lemma_le16_holds(b, 46, h.shentsize);
    lemma_le16_holds(b, 48, h.shnum);
    lemma_le16_holds(b, 50, h.shstrndx);
    lemma_header_accepted(b);
    let got = header_of(b)->Ok_0;
    assert(got.ident.magic =~= h.ident.magic);
}

impl<'a> TryFrom<&'a [u8]> for Header {
    type Error = &'static str;

    fn try_from(b: &'a [u8]) -> (r: Result<Self, Self::Error>) {
        if b.len() < HEADER_LEN {
            return Err("not enough bytes for Elf32_Ehdr (ELF header)");
        }
        let ident = match Identifier::try_from(slice_subrange(b, 0, IDENT_LEN)) {
            Ok(ident) => ident,
            Err(e) => {
                return Err(e);
            },
        };
        match Type::try_from(le16(b, 16)) {
            Ok(Type::Executable) => (),
            _ => {
                return Err("Unsupported ELF type, only ET_EXEC (static executables) is supported");
            },
        }
        let machine = match Machine::try_from(le16(b, 18)) {
            Ok(machine) => machine,
            Err(e) => {
                return Err(e);
            },
        };
        Ok(
            Header {
                ident,
                ty: Type::Executable,
                machine,
                version: le32(b, 20),
                entry: le32(b, 24),
                phoff: le32(b, 28),
                shoff: le32(b, 32),
                flags: le32(b, 36),
                ehsize: le16(b, 40),
                phentsize: le16(b, 42),
                phnum: le16(b, 44),
                shentsize: le16(b, 46),
                shnum: le16(b, 48),
                shstrndx: le16(b, 50),
            },
        )
    }
}

impl<'a> TryFromSpecImpl<&'a [u8]> for Header {
    open spec fn obeys_try_from_spec() -> bool {
        true
    }

    open spec fn try_from_spec(b: &'a [u8]) -> Result<Self, Self::Error> {
        header_of(b@)
    }
}

} // verus!
