//! Program headers: the segments of an ELF file.

use crate::mem::mmap::{prot_of, MmapFlags, MmapProt};
use crate::util::{le32, le32_at, le32_bytes, lemma_le32_holds};
use vstd::arithmetic::power2::{lemma2_to64, lemma_pow2_pos, pow2};
use vstd::bits::{lemma_u32_low_bits_mask_is_mod, low_bits_mask};
use vstd::prelude::*;
use vstd::slice::{slice_subrange, slice_to_vec};
use vstd::std_specs::convert::TryFromSpecImpl;
use vstd::std_specs::ops::BitOrSpecImpl;
use vstd::string::StringExecFns;

verus! {

/// The permissions of a segment. See 7.4, Segment Permission, of
/// https://gabi.xinuos.com/elf/07-pheader.html#segment-permissions
#[derive(Debug, Clone, Copy, PartialEq, Eq)]
pub struct Flags(pub u32);

#[allow(non_snake_case)]
impl Flags {
    pub fn NONE() -> (flags: Flags)
        ensures
            flags == Flags(0x0),
    {
        Flags(0x0)
    }

    /// execute
    pub fn X() -> (flags: Flags)
        ensures
            flags == Flags(0x1),
    {
        Flags(0x1)
    }

    /// write
    pub fn W() -> (flags: Flags)
        ensures
            flags == Flags(0x2),
    {
        Flags(0x2)
    }

    /// read
    pub fn R() -> (flags: Flags)
        ensures
            flags == Flags(0x4),
    {
        Flags(0x4)
    }

    pub fn bits(self) -> (bits: u32)
        ensures
            bits == self.0,
    {
        self.0
    }
}

/// What four bytes are read as, or why another number of bytes is
/// refused.
pub open spec fn flags_of(value: Seq<u8>) -> Result<Flags, &'static str> {
    if value.len() != 4 {
        Err("Not enough bytes for Elf32_Phdr.p_flags, need 4")
    } else {
        Ok(Flags(le32_at(value, 0)))
    }
}

impl<'a> TryFrom<&'a [u8]> for Flags {
    type Error = &'static str;

    fn try_from(value: &'a [u8]) -> (r: Result<Self, Self::Error>) {
        if value.len() != 4 {
            return Err("Not enough bytes for Elf32_Phdr.p_flags, need 4");
        }
        Ok(Flags(le32(value, 0)))
    }
}

impl<'a> TryFromSpecImpl<&'a [u8]> for Flags {
    open spec fn obeys_try_from_spec() -> bool {
        true
    }

    open spec fn try_from_spec(value: &'a [u8]) -> Result<Self, Self::Error> {
        flags_of(value@)
    }
}

impl core::ops::BitOr for Flags {
    type Output = Flags;

    fn bitor(self, rhs: Flags) -> (r: Flags) {
        Flags(self.0 | rhs.0)
    }
}

impl BitOrSpecImpl for Flags {
    open spec fn obeys_bitor_spec() -> bool {
        true
    }

    open spec fn bitor_req(self, rhs: Flags) -> bool {
        true
    }

    open spec fn bitor_spec(self, rhs: Flags) -> Flags {
        Flags(self.0 | rhs.0)
    }
}

/// The kind of a segment.
#[allow(non_camel_case_types)]
#[derive(Debug, Clone, Copy, PartialEq, Eq)]
pub enum Type {
    /// The array element is unused; other members' values are undefined.
    /// This type lets the program header table have ignored entries.
    NULL,
    /// The array element specifies a loadable segment, described by
    /// p_filesz and p_memsz. The bytes from the file are mapped to the
    /// beginning of the memory segment. If the segment's memory size is
    /// larger than the file size, the extra bytes hold the value 0 and
    /// follow the segment's initialized area.
    LOAD,
    /// The array element specifies dynamic linking information.
    DYNAMIC,
    /// The array element specifies the location and size of a
    /// null-terminated path name to invoke as an interpreter.
    INTERP,
    /// The array element specifies the location and size of auxiliary
    /// information.
    NOTE,
    /// This segment type is reserved but has unspecified semantics.
    SHLIB,
    /// The array element, if present, specifies the location and size of
    /// the program header table itself.
    PHDR,
    /// The array element specifies the Thread-Local Storage template.
    TLS,
    /// The first value of the inclusive range that is reserved for
    /// operating system-specific semantics.
    LOOS,
    /// The last value of that range.
    HIOS,
    /// The first value of the inclusive range that is reserved for
    /// processor-specific semantics.
    LOPROC,
    /// The last value of that range.
    HIPROC,
    /// A value strictly inside the range of the operating systems.
    OS(u32),
    /// A value strictly inside the range of the processors.
    PROC(u32),
}

/// The value of `p_type` that stands for a segment type.
pub open spec fn segment_type_value(ty: Type) -> u32 {
    match ty {
        Type::NULL => 0,
        Type::LOAD => 1,
        Type::DYNAMIC => 2,
        Type::INTERP => 3,
        Type::NOTE => 4,
        Type::SHLIB => 5,
        Type::PHDR => 6,
        Type::TLS => 7,
        Type::LOOS => 0x6000_0000,
        Type::HIOS => 0x6fff_ffff,
        Type::LOPROC => 0x7000_0000,
        Type::HIPROC => 0x7fff_ffff,
        Type::OS(value) => value,
        Type::PROC(value) => value,
    }
}

/// A segment type as reading gives it: `OS` and `PROC` hold a value
/// strictly inside their range.
pub open spec fn segment_type_wf(ty: Type) -> bool {
    match ty {
        Type::OS(value) => 0x6000_0000 < value < 0x6fff_ffff,
        Type::PROC(value) => 0x7000_0000 < value < 0x7fff_ffff,
        _ => true,
    }
}

/// The segment type that a value of `p_type` stands for: one of the known
/// tags, or a value of the two reserved ranges. No other value stands for
/// a type.
pub open spec fn segment_type_of(value: u32) -> Option<Type> {
    if value == 0 {
        Some(Type::NULL)
    } else if value == 1 {
        Some(Type::LOAD)
    } else if value == 2 {
        Some(Type::DYNAMIC)
    } else if value == 3 {
        Some(Type::INTERP)
    } else if value == 4 {
        Some(Type::NOTE)
    } else if value == 5 {
        Some(Type::SHLIB)
    } else if value == 6 {
        Some(Type::PHDR)
    } else if value == 7 {
        Some(Type::TLS)
    } else if value == 0x6000_0000 {
        Some(Type::LOOS)
    } else if value == 0x6fff_ffff {
        Some(Type::HIOS)
    } else if value == 0x7000_0000 {
        Some(Type::LOPROC)
    } else if value == 0x7fff_ffff {
        Some(Type::HIPROC)
    } else if 0x6000_0000 < value < 0x6fff_ffff {
        Some(Type::OS(value))
    } else if 0x7000_0000 < value < 0x7fff_ffff {
        Some(Type::PROC(value))
    } else {
        None
    }
}

/// Each segment type is what its own value stands for, and a value that
/// stands for a type is the value of that type.
pub proof fn lemma_segment_type_round_trip(ty: Type, value: u32)
    ensures
        segment_type_wf(ty) ==> segment_type_of(segment_type_value(ty)) == Some(ty),
        segment_type_of(value) matches Some(t) ==> segment_type_wf(t) && segment_type_value(t)
            == value,
{
}

/// What four bytes are read as a segment type, or why they are refused.
pub open spec fn type_of_bytes(value: Seq<u8>) -> Result<Type, &'static str> {
    if value.len() != 4 {
        Err("Elf32_Phdr.p_type requires exactly 4 bytes")
    } else {
        match segment_type_of(le32_at(value, 0)) {
            Some(ty) => Ok(ty),
            None => Err("Bad Elf32_Phdr.p_type value"),
        }
    }
}

impl<'a> TryFrom<&'a [u8]> for Type {
    type Error = &'static str;

    fn try_from(value: &'a [u8]) -> (r: Result<Self, Self::Error>) {
        if value.len() != 4 {
            return Err("Elf32_Phdr.p_type requires exactly 4 bytes");
        }
        let raw: u32 = le32(value, 0);
        Ok(
            match raw {
                0 => Type::NULL,
                1 => Type::LOAD,
                2 => Type::DYNAMIC,
                3 => Type::INTERP,
                4 => Type::NOTE,
                5 => Type::SHLIB,
                6 => Type::PHDR,
                7 => Type::TLS,
                0x6000_0000 => Type::LOOS,
                0x6fff_ffff => Type::HIOS,
                0x7000_0000 => Type::LOPROC,
                0x7fff_ffff => Type::HIPROC,
                _ => {
                    if 0x6000_0000 < raw && raw < 0x6fff_ffff {
                        Type::OS(raw)
                    } else if 0x7000_0000 < raw && raw < 0x7fff_ffff {
                        Type::PROC(raw)
                    } else {
                        return Err("Bad Elf32_Phdr.p_type value");
                    }
                },
            },
        )
    }
}

impl<'a> TryFromSpecImpl<&'a [u8]> for Type {
    open spec fn obeys_try_from_spec() -> bool {
        true
    }

    open spec fn try_from_spec(value: &'a [u8]) -> Result<Self, Self::Error> {
        type_of_bytes(value@)
    }
}

/// `n` is a power of two that 32 bits hold.
pub open spec fn is_power_of_two(n: u32) -> bool {
    exists|k: nat| k < 32 && n == #[trigger] pow2(k)
}

/// An alignment that a program header may ask for: none, written as 0 or
/// 1, or a power of two.
pub open spec fn valid_align(align: u32) -> bool {
    align == 0 || is_power_of_two(align)
}

/// The powers of two are the numbers with a single bit set.
pub proof fn lemma_power_of_two_bit(n: u32)
    ensures
        is_power_of_two(n) <==> n != 0 && n & ((n - 1) as u32) == 0,
{
    lemma2_to64();
    if n != 0 {
        let m: u32 = (n - 1) as u32;
        assert((n & m == 0) == (n == 0x1 || n == 0x2 || n == 0x4 || n == 0x8 || n == 0x10 || n
            == 0x20 || n == 0x40 || n == 0x80 || n == 0x100 || n == 0x200 || n == 0x400 || n
            == 0x800 || n == 0x1000 || n == 0x2000 || n == 0x4000 || n == 0x8000 || n == 0x1_0000
            || n == 0x2_0000 || n == 0x4_0000 || n == 0x8_0000 || n == 0x10_0000 || n == 0x20_0000
            || n == 0x40_0000 || n == 0x80_0000 || n == 0x100_0000 || n == 0x200_0000 || n
            == 0x400_0000 || n == 0x800_0000 || n == 0x1000_0000 || n == 0x2000_0000 || n
            == 0x4000_0000 || n == 0x8000_0000)) by (bit_vector)
            requires
                n != 0,
                m == n - 1,
        ;
    }
    if is_power_of_two(n) {
        // n is one of the 32 powers, each of which has a single bit
        let k = choose|k: nat| k < 32 && n == #[trigger] pow2(k);
        assert(k == 0 || k == 1 || k == 2 || k == 3 || k == 4 || k == 5 || k == 6 || k == 7 || k
            == 8 || k == 9 || k == 10 || k == 11 || k == 12 || k == 13 || k == 14 || k == 15 || k
            == 16 || k == 17 || k == 18 || k == 19 || k == 20 || k == 21 || k == 22 || k == 23 || k
            == 24 || k == 25 || k == 26 || k == 27 || k == 28 || k == 29 || k == 30 || k == 31);
    }
}

/// Whether `n` is a power of two.
pub fn power_of_two(n: u32) -> (r: bool)
    ensures
        r == is_power_of_two(n),
{
    proof {
        lemma_power_of_two_bit(n);
    }
    n != 0 && n & (n - 1) == 0
}

/// The length of a program header in bytes.
pub const PHDR_LEN: usize = 32;

/// The alignment of a segment that asks for none: the size of a page.
pub const PAGE_SIZE: u32 = 0x1000;

/// A program header, equivalent to Elf32_Phdr, see
/// https://gabi.xinuos.com/elf/07-pheader.html
///
/// All of its members are u32, be it Elf32_Word, Elf32_Off or Elf32_Addr.
#[derive(Debug, Clone, Copy, PartialEq, Eq)]
pub struct Pheader {
    pub ty: Type,
    /// offset of the segment from the start of the file
    pub offset: u32,
    /// virtual address of the first byte of the segment
    pub vaddr: u32,
    /// reserved for the physical address of the segment; not used
    pub paddr: u32,
    /// the number of bytes in the file image of the segment; it may be zero
    pub filesz: u32,
    /// the number of bytes in the memory image of the segment; it may be
    /// zero
    pub memsz: u32,
    pub flags: Flags,
    /// the value to which the segment is aligned in memory and in the
    /// file. 0 and 1 mean that no alignment is required. Otherwise it is a
    /// positive, integral power of 2
    pub align: u32,
}

/// The decimal digit `d` as a character.
pub open spec fn digit_char(d: nat) -> char {
    (0x30 + d) as char
}

/// A number in decimal, without sign or leading zeros.
pub open spec fn decimal(n: nat) -> Seq<char>
    decreases n,
{
    if n < 10 {
        seq![digit_char(n)]
    } else {
        decimal(n / 10).push(digit_char(n % 10))
    }
}

/// The words that refuse the alignment `align`.
pub open spec fn invalid_align_message(align: u32) -> Seq<char> {
    "Invalid p_align: "@ + decimal(align as nat)
}

/// The decimal digit `d` as text.
fn digit_str(d: u32) -> (text: &'static str)
    requires
        d < 10,
    ensures
        text@ == seq![digit_char(d as nat)],
{
    proof {
        reveal_strlit("0");
        reveal_strlit("1");
        reveal_strlit("2");
        reveal_strlit("3");
        reveal_strlit("4");
        reveal_strlit("5");
        reveal_strlit("6");
        reveal_strlit("7");
        reveal_strlit("8");
        reveal_strlit("9");
    }
    match d {
        0 => "0",
        1 => "1",
        2 => "2",
        3 => "3",
        4 => "4",
        5 => "5",
        6 => "6",
        7 => "7",
        8 => "8",
        _ => "9",
    }
}

/// Writes `n` in decimal behind `text`.
fn append_decimal(text: &mut String, n: u32)
    ensures
        final(text)@ == old(text)@ + decimal(n as nat),
    decreases n,
{
    if n >= 10 {
        append_decimal(text, n / 10);
    }
    text.append(digit_str(n % 10));
    proof {
        if n >= 10 {
            assert(old(text)@ + decimal((n / 10) as nat) + seq![digit_char((n % 10) as nat)] =~= old(
                text,
            )@ + decimal(n as nat));
        }
    }
}

/// Says that `align` is no alignment.
fn invalid_align(align: u32) -> (message: String)
    ensures
        message@ == invalid_align_message(align),
{
    let mut message = "Invalid p_align: ".to_owned();
    append_decimal(&mut message, align);
    message
}

/// What the 32 bytes at `offset` are read as, or why they are refused.
/// The checks come in this order: the bounds, the type, the alignment.
pub open spec fn pheader_at(raw: Seq<u8>, offset: int) -> Result<Pheader, Seq<char>> {
    if offset + PHDR_LEN > usize::MAX {
        Err("Offset overflow"@)
    } else if raw.len() < offset + PHDR_LEN {
        Err("Not enough bytes to parse Elf32_Phdr, need at least 32"@)
    } else {
        match segment_type_of(le32_at(raw, offset)) {
            None => Err("Bad Elf32_Phdr.p_type value"@),
            Some(ty) => if !valid_align(le32_at(raw, offset + 28)) {
                Err(invalid_align_message(le32_at(raw, offset + 28)))
            } else {
                Ok(
                    Pheader {
                        ty,
                        offset: le32_at(raw, offset + 4),
                        vaddr: le32_at(raw, offset + 8),
                        paddr: le32_at(raw, offset + 12),
                        filesz: le32_at(raw, offset + 16),
                        memsz: le32_at(raw, offset + 20),
                        flags: Flags(le32_at(raw, offset + 24)),
                        align: le32_at(raw, offset + 28),
                    },
                )
            },
        }
    }
}

/// A program header is read at `offset` if and only if 32 bytes stand
/// there, their type is known and their alignment is one: a single field
/// that is not as asked for is enough to refuse them.
pub proof fn lemma_pheader_accepted(raw: Seq<u8>, offset: int)
    ensures
        pheader_at(raw, offset) is Ok <==> {
            &&& offset + PHDR_LEN <= usize::MAX
            &&& offset + PHDR_LEN <= raw.len()
            &&& segment_type_of(le32_at(raw, offset)) is Some
            &&& valid_align(le32_at(raw, offset + 28))
        },
{
}

/// A program header as reading gives it.
pub open spec fn pheader_wf(header: Pheader) -> bool {
    segment_type_wf(header.ty) && valid_align(header.align)
}

/// Byte `i` of the 32 bytes that hold a program header.
pub open spec fn pheader_byte(header: Pheader, i: int) -> u8 {
    if i < 4 {
        le32_bytes(segment_type_value(header.ty))[i]
    } else if i < 8 {
        le32_bytes(header.offset)[i - 4]
    } else if i < 12 {
        le32_bytes(header.vaddr)[i - 8]
    } else if i < 16 {
        le32_bytes(header.paddr)[i - 12]
    } else if i < 20 {
        le32_bytes(header.filesz)[i - 16]
    } else if i < 24 {
        le32_bytes(header.memsz)[i - 20]
    } else if i < 28 {
        le32_bytes(header.flags.0)[i - 24]
    } else {
        le32_bytes(header.align)[i - 28]
    }
}

/// The 32 bytes that hold a program header.
pub open spec fn pheader_bytes(header: Pheader) -> Seq<u8> {
    Seq::new(PHDR_LEN as nat, |i: int| pheader_byte(header, i))
}

/// A buffer that holds the bytes of a program header at `offset` is read
/// there as that very header, whatever stands around them.
pub proof fn lemma_pheader_round_trip(header: Pheader, raw: Seq<u8>, offset: int)
    requires
        pheader_wf(header),
        0 <= offset,
        offset + PHDR_LEN <= raw.len(),
        offset + PHDR_LEN <= usize::MAX,
        raw.subrange(offset, offset + PHDR_LEN) == pheader_bytes(header),
    ensures
        pheader_at(raw, offset) == Ok::<Pheader, Seq<char>>(header),
{
    let w = raw.subrange(offset, offset + PHDR_LEN);
    assert(forall|i: int| 0 <= i < 32 ==> #[trigger] w[i] == pheader_byte(header, i));
    lemma_le32_holds(w, 0, segment_type_value(header.ty));
    lemma_le32_holds(w, 4, header.offset);
    lemma_le32_holds(w, 8, header.vaddr);
    lemma_le32_holds(w, 12, header.paddr);
    lemma_le32_holds(w, 16, header.filesz);
    lemma_le32_holds(w, 20, header.memsz);
    lemma_le32_holds(w, 24, header.flags.0);
    lemma_le32_holds(w, 28, header.align);
    lemma_segment_type_round_trip(header.ty, 0);
}

/// `x` rounded down to a multiple of `a`.
pub open spec fn align_down(x: int, a: int) -> int {
    x - x % a
}

/// Under a power of two, masking the low bits away rounds down.
pub proof fn lemma_mask_rounds_down(x: u32, a: u32)
    requires
        is_power_of_two(a),
    ensures
        x & !((a - 1) as u32) == align_down(x as int, a as int),
{
    let k = choose|k: nat| k < 32 && a == #[trigger] pow2(k);
    lemma_pow2_pos(k);
    let m: u32 = (a - 1) as u32;
    assert(m == low_bits_mask(k) as u32);
    lemma_u32_low_bits_mask_is_mod(x, k);
    assert(x & !m == x - (x & m)) by (bit_vector);
}

/// What is to be done with host memory to load a segment: pages to map,
/// bytes to put into them, the place in guest memory that they stand for,
/// and the protection that they get at the end.
#[derive(Debug, PartialEq, Eq)]
pub struct Mapping {
    /// the guest address under which the region is entered into the
    /// memory map: the virtual address of the segment as the program
    /// header gives it
    pub guest_addr: u32,
    /// the number of bytes of host memory to map
    pub len: u32,
    /// the protection to map the pages with
    pub initial: MmapProt,
    /// the flags to map the pages with
    pub flags: MmapFlags,
    /// the bytes that the region starts with: the file image of the
    /// segment, then zeros up to its memory size
    pub image: Vec<u8>,
    /// the protection of the region once the image is in it
    pub prot: MmapProt,
}

/// The bytes that a loaded segment starts with: `filesz` bytes of the file
/// from `offset` on, then zeros up to `memsz` bytes.
pub open spec fn segment_image(raw: Seq<u8>, offset: int, filesz: int, memsz: int) -> Seq<u8> {
    raw.subrange(offset, offset + filesz) + Seq::new(
        if memsz > filesz {
            (memsz - filesz) as nat
        } else {
            0nat
        },
        |i: int| 0u8,
    )
}

impl Pheader {
    /// Reads the program header that `raw` holds at `offset`.
    pub fn from(raw: &[u8], offset: usize) -> (r: Result<Pheader, String>)
        ensures
            match r {
                Ok(header) => pheader_at(raw@, offset as int) == Ok::<Pheader, Seq<char>>(header),
                Err(e) => pheader_at(raw@, offset as int) == Err::<Pheader, Seq<char>>(e@),
            },
    {
        let end = match offset.checked_add(PHDR_LEN) {
            Some(end) => end,
            None => {
                return Err("Offset overflow".to_owned());
            },
        };
        if raw.len() < end {
            return Err("Not enough bytes to parse Elf32_Phdr, need at least 32".to_owned());
        }
        let ty = match Type::try_from(slice_subrange(raw, offset, offset + 4)) {
            Ok(ty) => ty,
            Err(e) => {
                return Err(e.to_owned());
            },
        };
        let flags = match Flags::try_from(slice_subrange(raw, offset + 24, offset + 28)) {
            Ok(flags) => flags,
            Err(e) => {
                return Err(e.to_owned());
            },
        };
        let align = le32(raw, offset + 28);
        proof {
            lemma2_to64();
            assert(is_power_of_two(1));
            assert(!is_power_of_two(0)) by {
                lemma_power_of_two_bit(0);
            }
        }
        if align > 1 && !power_of_two(align) {
            return Err(invalid_align(align));
        }
        Ok(
            Pheader {
                ty,
                offset: le32(raw, offset + 4),
                vaddr: le32(raw, offset + 8),
                paddr: le32(raw, offset + 12),
                filesz: le32(raw, offset + 16),
                memsz: le32(raw, offset + 20),
                flags,
                align,
            },
        )
    }

    /// Whether the segment is one to load into memory.
    pub fn is_load(&self) -> (load: bool)
        ensures
            load == (self.ty == Type::LOAD),
    {
        match self.ty {
            Type::LOAD => true,
            _ => false,
        }
    }

    /// The alignment that counts: that of the program header, or the size
    /// of a page where it asks for none.
    pub open spec fn effective_align(&self) -> u32 {
        if self.align == 0 {
            PAGE_SIZE
        } else {
            self.align
        }
    }

    /// The first address of the aligned span of the segment: its virtual
    /// address, rounded down.
    pub open spec fn span_start(&self) -> int {
        align_down(self.vaddr as int, self.effective_align() as int)
    }

    /// The address behind the aligned span of the segment: the end of its
    /// memory image, rounded up.
    pub open spec fn span_end(&self) -> int {
        align_down(
            self.vaddr + self.memsz + self.effective_align() - 1,
            self.effective_align() as int,
        )
    }

    /// The length of the aligned span.
    pub open spec fn span_len(&self) -> int {
        self.span_end() - self.span_start()
    }

    /// The aligned span lies within 32 bits.
    pub open spec fn span_fits(&self) -> bool {
        self.vaddr + self.memsz + self.effective_align() - 1 <= u32::MAX
    }

    /// The aligned span holds the memory image of the segment.
    pub proof fn lemma_span_holds_segment(&self)
        requires
            valid_align(self.align),
        ensures
            self.span_start() <= self.vaddr,
            self.vaddr + self.memsz <= self.span_end(),
            self.memsz <= self.span_len(),
            self.span_start() % (self.effective_align() as int) == 0,
            self.span_end() % (self.effective_align() as int) == 0,
    {
        let a = self.effective_align() as int;
        assert(a > 0) by {
            lemma2_to64();
            if self.align != 0 {
                lemma_power_of_two_bit(self.align);
            }
        }
        let x = self.vaddr as int;
        let e = self.vaddr + self.memsz + a - 1;
        assert(0 <= x % a < a && 0 <= e % a < a && (x - x % a) % a == 0 && (e - e % a) % a == 0)
            by (nonlinear_arith)
            requires
                a > 0,
                x >= 0,
                e >= 0,
        ;
    }

    /// Returns (start, end, len) of the aligned span of the segment.
    pub fn alignments(&self) -> (r: (u32, u32, u32))
        requires
            valid_align(self.align),
            self.span_fits(),
        ensures
            r.0 == self.span_start(),
            r.1 == self.span_end(),
            r.2 == self.span_len(),
    {
        // page alignment: either Elf32_Phdr.p_align or 4096
        let align: u32 = match self.align {
            0 => PAGE_SIZE,
            _ => self.align,
        };
        proof {
            lemma2_to64();
            assert(is_power_of_two(align));
            lemma_power_of_two_bit(align);
            lemma_mask_rounds_down(self.vaddr, align);
            lemma_mask_rounds_down((self.vaddr + self.memsz + align - 1) as u32, align);
            self.lemma_span_holds_segment();
        }
        let start: u32 = self.vaddr & !(align - 1);
        let end: u32 = (self.vaddr + self.memsz + (align - 1)) & !(align - 1);
        let len: u32 = end - start;
        (start, end, len)
    }

    /// Why the segment cannot be loaded from a file of `raw_len` bytes, if
    /// it cannot. The checks come in this order: the address, the
    /// alignment, the span, the place of the file image, its size.
    pub open spec fn map_refusal(&self, raw_len: nat) -> Option<Seq<char>> {
        if self.memsz == 0 {
            None
        } else if self.vaddr == 0 {
            Some("program header has a zero virtual address"@)
        } else if !valid_align(self.align) {
            Some(invalid_align_message(self.align))
        } else if !self.span_fits() {
            Some("segment does not fit into the guest address space"@)
        } else if self.offset + self.filesz > raw_len {
            Some("file image of the segment lies outside the file"@)
        } else if self.filesz > self.span_len() {
            Some("file image of the segment is larger than the segment"@)
        } else {
            None
        }
    }

    /// Works out how the segment is loaded from the file `raw`: how much
    /// host memory to map and how, which bytes to put at its start, under
    /// which guest address to enter the region into the memory map, and
    /// which protection to give it at the end. A segment that needs no
    /// memory gives `None`.
    pub fn map(&self, raw: &[u8]) -> (r: Result<Option<Mapping>, String>)
        ensures
            match r {
                Err(e) => self.map_refusal(raw@.len()) == Some(e@),
                Ok(None) => self.memsz == 0,
                Ok(Some(mapping)) => {
                    &&& self.memsz != 0
                    &&& self.map_refusal(raw@.len()) is None
                    &&& mapping.guest_addr == self.vaddr
                    &&& mapping.len == self.span_len()
                    &&& mapping.initial == MmapProt(0x02)
                    &&& mapping.flags == MmapFlags(0x22)
                    &&& mapping.image@ == segment_image(
                        raw@,
                        self.offset as int,
                        self.filesz as int,
                        self.memsz as int,
                    )
                    &&& mapping.image@.len() <= mapping.len
                    &&& mapping.prot == prot_of(self.flags)
                },
            },
    {
        // a segment that needs no memory is tolerated
        if self.memsz == 0 {
            return Ok(None);
        }
        if self.vaddr == 0 {
            return Err("program header has a zero virtual address".to_owned());
        }
        proof {
            lemma2_to64();
            assert(is_power_of_two(1));
        }
        if self.align > 1 && !power_of_two(self.align) {
            return Err(invalid_align(self.align));
        }
        let align: u64 = if self.align == 0 {
            PAGE_SIZE as u64
        } else {
            self.align as u64
        };
        if self.vaddr as u64 + self.memsz as u64 + align - 1 > u32::MAX as u64 {
            return Err("segment does not fit into the guest address space".to_owned());
        }
        let (_, _, len) = self.alignments();
        if self.offset as u64 + self.filesz as u64 > raw.len() as u64 {
            return Err("file image of the segment lies outside the file".to_owned());
        }
        if self.filesz > len {
            return Err("file image of the segment is larger than the segment".to_owned());
        }
        proof {
            self.lemma_span_holds_segment();
        }
        // the file image of the segment, followed by zeros
        let from: usize = self.offset as usize;
        let mut image: Vec<u8> = slice_to_vec(slice_subrange(raw, from, from + self.filesz as usize));
        if self.memsz > self.filesz {
            let ghost file = image@;
            image.resize(self.memsz as usize, 0u8);
            assert(image@ =~= segment_image(
                raw@,
                self.offset as int,
                self.filesz as int,
                self.memsz as int,
            )) by {
                assert(forall|i: int| 0 <= i < file.len() ==> image@[i] == file[i]);
            }
        } else {
            assert(image@ =~= segment_image(
                raw@,
                self.offset as int,
                self.filesz as int,
                self.memsz as int,
            ));
        }
        // The pages are mapped writable and private, wherever the host has
        // room: guest addresses are low addresses, which the host does not
        // hand out.
        let flags = MmapFlags::ANONYMOUS() | MmapFlags::PRIVATE();
        proof {
            assert(0x20i32 | 0x02i32 == 0x22i32) by (bit_vector);
        }
        Ok(
            Some(
                Mapping {
                    guest_addr: self.vaddr,
                    len,
                    initial: MmapProt::WRITE(),
                    flags,
                    image,
                    prot: MmapProt::from(self.flags),
                },
            ),
        )
    }
}

} // verus!
