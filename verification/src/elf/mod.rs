//! Reading the Executable and Linkable Format, 32-bit.

pub mod header;
pub mod pheader;

use crate::elf::header::{
    header_bytes, header_of, header_wf, lemma_header_round_trip, Header, HEADER_LEN,
};
use crate::elf::pheader::{
    lemma_pheader_round_trip, pheader_at, pheader_bytes, pheader_wf, Pheader, PHDR_LEN,
};
use crate::err::Error;
use vstd::prelude::*;

verus! {

/// An ELF32 binary in memory.
///
/// This does not include section headers (Elf32_Shdr), but only program
/// headers (Elf32_Phdr), see either `man elf` or
/// https://gabi.xinuos.com/elf/03-sheader.html
#[derive(Debug)]
pub struct Elf {
    pub header: Header,
    pub pheaders: Vec<Pheader>,
}

/// The place in the file of program header `i`.
pub open spec fn pheader_offset(header: Header, i: int) -> int {
    header.phoff + i * header.phentsize
}

/// The buffer holds a header that is read, and each program header that
/// the header counts is read too.
pub open spec fn elf_accepted(b: Seq<u8>) -> bool {
    header_of(b) matches Ok(header) && forall|i: int|
        0 <= i < header.phnum ==> (#[trigger] pheader_at(b, pheader_offset(header, i))) is Ok
}

/// A file that is put together from a header and the program headers that
/// it counts, each at its place, is read, and reading gives back that
/// header and those program headers, field by field.
pub proof fn lemma_elf_round_trip(header: Header, pheaders: Seq<Pheader>, file: Seq<u8>)
    requires
        header_wf(header),
        file.len() >= HEADER_LEN,
        file.len() <= usize::MAX,
        file.subrange(0, HEADER_LEN as int) == header_bytes(header),
        pheaders.len() == header.phnum,
        forall|i: int|
            0 <= i < pheaders.len() ==> {
                &&& pheader_wf(#[trigger] pheaders[i])
                &&& pheader_offset(header, i) + PHDR_LEN <= file.len()
                &&& file.subrange(pheader_offset(header, i), pheader_offset(header, i) + PHDR_LEN)
                    == pheader_bytes(pheaders[i])
            },
    ensures
        elf_accepted(file),
        header_of(file) == Ok::<Header, &'static str>(header),
        forall|i: int|
            0 <= i < pheaders.len() ==> (#[trigger] pheader_at(file, pheader_offset(header, i)))
                == Ok::<Pheader, Seq<char>>(pheaders[i]),
{
    lemma_header_round_trip(header, file);
    assert forall|i: int| 0 <= i < pheaders.len() implies (#[trigger] pheader_at(
        file,
        pheader_offset(header, i),
    )) == Ok::<Pheader, Seq<char>>(pheaders[i]) by {
        assert(0 <= i * header.phentsize) by (nonlinear_arith)
            requires
                0 <= i,
                0 <= header.phentsize,
        ;
        lemma_pheader_round_trip(pheaders[i], file, pheader_offset(header, i));
    }
}

/// `elf` is what reading the buffer gives: its header, and the program
/// headers that the header counts, in their order.
pub open spec fn elf_holds(b: Seq<u8>, elf: Elf) -> bool {
    &&& header_of(b) == Ok::<Header, &'static str>(elf.header)
    &&& elf.pheaders@.len() == elf.header.phnum
    &&& forall|i: int|
        0 <= i < elf.header.phnum ==> (#[trigger] pheader_at(b, pheader_offset(elf.header, i)))
            == Ok::<Pheader, Seq<char>>(elf.pheaders@[i])
}

/// `message` is why the buffer is refused: the words of the header, or
/// else those of the first program header which is refused.
pub open spec fn elf_refused(b: Seq<u8>, message: Seq<char>) -> bool {
    match header_of(b) {
        Err(words) => message == words@,
        Ok(header) => exists|i: int|
            {
                &&& 0 <= i < header.phnum
                &&& (#[trigger] pheader_at(b, pheader_offset(header, i))) == Err::<
                    Pheader,
                    Seq<char>,
                >(message)
                &&& forall|j: int|
                    0 <= j < i ==> (#[trigger] pheader_at(b, pheader_offset(header, j))) is Ok
            },
    }
}

impl Elf {
    /// Reads the ELF header and the program headers that it counts. The
    /// error is that of the header, or else that of the first program
    /// header which is refused.
    pub fn try_from(b: &[u8]) -> (r: Result<Elf, String>)
        ensures
            r is Ok <==> elf_accepted(b@),
            match r {
                Ok(elf) => elf_holds(b@, elf),
                Err(e) => elf_refused(b@, e@),
            },
    {
        let header = match Header::try_from(b) {
            Ok(header) => header,
            Err(e) => {
                return Err(e.to_owned());
            },
        };
        let mut pheaders: Vec<Pheader> = Vec::with_capacity(header.phnum as usize);
        let mut i: u16 = 0;
        while i < header.phnum
            invariant
                header_of(b@) == Ok::<Header, &'static str>(header),
                i <= header.phnum,
                pheaders@.len() == i,
                forall|j: int|
                    0 <= j < i ==> (#[trigger] pheader_at(b@, pheader_offset(header, j))) == Ok::<
                        Pheader,
                        Seq<char>,
                    >(pheaders@[j]),
            decreases header.phnum - i,
        {
            assert(0 <= i * header.phentsize <= 0xffff * 0xffff) by (nonlinear_arith)
                requires
                    0 <= i <= 0xffff,
                    0 <= header.phentsize <= 0xffff,
            ;
            let offset: u64 = header.phoff as u64 + i as u64 * header.phentsize as u64;
            let ghost here = pheader_at(b@, pheader_offset(header, i as int));
            if offset > usize::MAX as u64 {
                assert(here == Err::<Pheader, Seq<char>>("Offset overflow"@));
                return Err("Offset overflow".to_owned());
            }
            match Pheader::from(b, offset as usize) {
                Ok(ph) => {
                    pheaders.push(ph);
                },
                Err(e) => {
                    return Err(e);
                },
            }
            i = i + 1;
        }
        Ok(Elf { header, pheaders })
    }

    /// Reads an ELF file as `try_from` does. A file that is refused
    /// violates a constraint on the files that the emulator runs, and the
    /// error says which.
    pub fn read(b: &[u8]) -> (r: Result<Elf, Error>)
        ensures
            r is Ok <==> elf_accepted(b@),
            match r {
                Ok(elf) => elf_holds(b@, elf),
                Err(Error::ElfConstraintViolation(message)) => elf_refused(b@, message@),
                Err(_) => false,
            },
    {
        match Elf::try_from(b) {
            Ok(elf) => Ok(elf),
            Err(message) => Err(Error::ElfConstraintViolation(message)),
        }
    }
}

} // verus!
