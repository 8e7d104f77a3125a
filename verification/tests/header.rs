use stinkarm::elf::header::ident::Identifier;
use stinkarm::elf::header::machine::Machine;
use stinkarm::elf::header::ty::Type;
use stinkarm::elf::header::Header;

fn valid_armv7_header_bytes() -> [u8; 52] {
    let mut bytes = [0u8; 52];

    // e_ident (16 bytes)
    bytes[0..4].copy_from_slice(&[0x7f, b'E', b'L', b'F']); // magic
    bytes[4] = 1; // ELFCLASS32
    bytes[5] = 1; // ELFDATA2LSB
    bytes[6] = 1; // EV_CURRENT
    bytes[7] = 0; // OSABI_NONE
    bytes[8] = 0; // ABI version
    bytes[9..16].fill(0); // padding

    // e_type (16..18) = ET_EXEC
    bytes[16..18].copy_from_slice(&2u16.to_le_bytes());

    // e_machine (18..20) = EM_ARM
    bytes[18..20].copy_from_slice(&40u16.to_le_bytes());

    // e_version (20..24) = 1
    bytes[20..24].copy_from_slice(&1u32.to_le_bytes());

    // e_entry (24..28) = 0x8000
    bytes[24..28].copy_from_slice(&0x8000u32.to_le_bytes());

    // e_phoff (28..32) = 0
    bytes[28..32].copy_from_slice(&0u32.to_le_bytes());

    // e_shoff (32..36) = 0
    bytes[32..36].copy_from_slice(&0u32.to_le_bytes());

    // e_flags (36..40) = 0
    bytes[36..40].copy_from_slice(&0u32.to_le_bytes());

    // e_ehsize (40..42) = 52
    bytes[40..42].copy_from_slice(&52u16.to_le_bytes());

    // e_phentsize (42..44) = 32 (common)
    bytes[42..44].copy_from_slice(&32u16.to_le_bytes());

    // e_phnum (44..46) = 1
    bytes[44..46].copy_from_slice(&1u16.to_le_bytes());

    // e_shentsize (46..48) = 40 (common)
    bytes[46..48].copy_from_slice(&40u16.to_le_bytes());

    // e_shnum (48..50) = 0
    bytes[48..50].copy_from_slice(&0u16.to_le_bytes());

    // e_shstrndx (50..52) = 0
    bytes[50..52].copy_from_slice(&0u16.to_le_bytes());

    bytes
}

#[test]
fn test_valid_header() {
    let bytes = valid_armv7_header_bytes();
    let header = Header::try_from(&bytes[..]).expect("should parse valid ARMv7 ELF header");
    assert_eq!(header.ty, Type::Executable);
    assert_eq!(header.machine, Machine::EM_ARM);
    assert_eq!(header.entry, 0x8000);
    assert_eq!(header.ehsize, 52);
}

#[test]
fn test_invalid_magic() {
    let mut bytes = valid_armv7_header_bytes();
    bytes[0] = 0x00;
    assert!(Header::try_from(&bytes[..]).is_err());
}

#[test]
fn test_invalid_class() {
    let mut bytes = valid_armv7_header_bytes();
    bytes[4] = 2; // ELFCLASS64
    assert!(Header::try_from(&bytes[..]).is_err());
}

#[test]
fn test_invalid_machine() {
    let mut bytes = valid_armv7_header_bytes();
    bytes[18..20].copy_from_slice(&62u16.to_le_bytes()); // X86_64
    assert!(Header::try_from(&bytes[..]).is_err());
}

#[test]
fn test_invalid_type() {
    let mut bytes = valid_armv7_header_bytes();
    bytes[16..18].copy_from_slice(&1u16.to_le_bytes()); // ET_REL
    assert!(Header::try_from(&bytes[..]).is_err());
}

#[test]
fn test_too_short() {
    let bytes = [0u8; 10];
    assert!(Header::try_from(&bytes[..]).is_err());
}

#[test]
fn header_recovers_every_field() {
    let mut bytes = valid_armv7_header_bytes();
    bytes[7] = 3;
    bytes[8] = 9;
    bytes[20..24].copy_from_slice(&0x0102_0304u32.to_le_bytes());
    bytes[24..28].copy_from_slice(&0xdead_beefu32.to_le_bytes());
    bytes[28..32].copy_from_slice(&0x34u32.to_le_bytes());
    bytes[32..36].copy_from_slice(&0x1234_5678u32.to_le_bytes());
    bytes[36..40].copy_from_slice(&0x0500_0200u32.to_le_bytes());
    bytes[40..42].copy_from_slice(&0x0034u16.to_le_bytes());
    bytes[42..44].copy_from_slice(&0x0020u16.to_le_bytes());
    bytes[44..46].copy_from_slice(&0x0102u16.to_le_bytes());
    bytes[46..48].copy_from_slice(&0x0028u16.to_le_bytes());
    bytes[48..50].copy_from_slice(&0xfffeu16.to_le_bytes());
    bytes[50..52].copy_from_slice(&0x8001u16.to_le_bytes());
    let header = Header::try_from(&bytes[..]).unwrap();
    let expected = Header {
        ident: Identifier {
            magic: [0x7f, 0x45, 0x4c, 0x46],
            class: 1,
            data: 1,
            version: 1,
            os_abi: 3,
            abi_version: 9,
        },
        ty: Type::Executable,
        machine: Machine::EM_ARM,
        version: 0x0102_0304,
        entry: 0xdead_beef,
        phoff: 0x34,
        shoff: 0x1234_5678,
        flags: 0x0500_0200,
        ehsize: 0x34,
        phentsize: 0x20,
        phnum: 0x0102,
        shentsize: 0x28,
        shnum: 0xfffe,
        shstrndx: 0x8001,
    };
    assert_eq!(header, expected);
}

#[test]
fn header_ignores_what_follows() {
    let mut long = vec![0xaau8; 100];
    long[..52].copy_from_slice(&valid_armv7_header_bytes());
    let header = Header::try_from(&long[..]).unwrap();
    assert_eq!(header.entry, 0x8000);
    assert_eq!(header.phnum, 1);
}

#[test]
fn header_errors_say_what_is_wrong() {
    let valid = valid_armv7_header_bytes();
    assert_eq!(
        Header::try_from(&valid[..51]),
        Err("not enough bytes for Elf32_Ehdr (ELF header)")
    );
    assert_eq!(
        Header::try_from(&valid[..0]),
        Err("not enough bytes for Elf32_Ehdr (ELF header)")
    );
    for at in 0..4 {
        let mut bytes = valid;
        bytes[at] ^= 0x01;
        assert_eq!(Header::try_from(&bytes[..]), Err("Invalid ELF magic"));
    }
    let mut bytes = valid;
    bytes[4] = 2;
    assert_eq!(
        Header::try_from(&bytes[..]),
        Err("Unsupported ELF class, only ELFCLASS32 is supported")
    );
    let mut bytes = valid;
    bytes[5] = 2;
    assert_eq!(
        Header::try_from(&bytes[..]),
        Err("Unsupported ELF data encoding, only little endian is supported")
    );
    let mut bytes = valid;
    bytes[6] = 0;
    assert_eq!(Header::try_from(&bytes[..]), Err("Unsupported ELF identifier version"));
    for ty in [0u16, 1, 3, 4, 99, 0xfe00, 0xffff] {
        let mut bytes = valid;
        bytes[16..18].copy_from_slice(&ty.to_le_bytes());
        assert_eq!(
            Header::try_from(&bytes[..]),
            Err("Unsupported ELF type, only ET_EXEC (static executables) is supported")
        );
    }
    for machine in [0u16, 3, 62, 183, 0x2800] {
        let mut bytes = valid;
        bytes[18..20].copy_from_slice(&machine.to_le_bytes());
        assert_eq!(Header::try_from(&bytes[..]), Err("Unsupported machine"));
    }
}

#[test]
fn header_checks_come_in_order() {
    let mut bytes = valid_armv7_header_bytes();
    // a wrong type and a wrong machine: the type is looked at first
    bytes[16..18].copy_from_slice(&3u16.to_le_bytes());
    bytes[18..20].copy_from_slice(&62u16.to_le_bytes());
    assert_eq!(
        Header::try_from(&bytes[..]),
        Err("Unsupported ELF type, only ET_EXEC (static executables) is supported")
    );
    // a wrong class too: the identifier is looked at before the type
    bytes[4] = 2;
    assert_eq!(
        Header::try_from(&bytes[..]),
        Err("Unsupported ELF class, only ELFCLASS32 is supported")
    );
    bytes[1] = 0;
    assert_eq!(Header::try_from(&bytes[..]), Err("Invalid ELF magic"));
}

#[test]
fn identifier_wants_sixteen_bytes() {
    let bytes = valid_armv7_header_bytes();
    assert!(Identifier::try_from(&bytes[..16]).is_ok());
    assert_eq!(
        Identifier::try_from(&bytes[..15]),
        Err("Elf32_Ehdr.e_ident requires exactly 16 bytes")
    );
    assert_eq!(
        Identifier::try_from(&bytes[..17]),
        Err("Elf32_Ehdr.e_ident requires exactly 16 bytes")
    );
}

#[test]
fn header_type_values() {
    assert_eq!(Type::try_from(0u16), Ok(Type::NoType));
    assert_eq!(Type::try_from(1u16), Ok(Type::Relocatable));
    assert_eq!(Type::try_from(2u16), Ok(Type::Executable));
    assert_eq!(Type::try_from(3u16), Ok(Type::SharedObject));
    assert_eq!(Type::try_from(4u16), Ok(Type::Core));
    assert_eq!(Type::try_from(0xfe00u16), Ok(Type::LoOs));
    assert_eq!(Type::try_from(0xfeffu16), Ok(Type::HiOs));
    assert_eq!(Type::try_from(0xff00u16), Ok(Type::LoProc));
    assert_eq!(Type::try_from(0xffffu16), Ok(Type::HiProc));
    assert_eq!(Type::try_from(5u16), Err("Invalid u16 value for e_type"));
    assert_eq!(Type::try_from(0xfe01u16), Err("Invalid u16 value for e_type"));
}

#[test]
fn machine_values() {
    assert_eq!(Machine::try_from(40u16), Ok(Machine::EM_ARM));
    assert_eq!(Machine::try_from(62u16), Err("Unsupported machine"));
    assert_eq!(Machine::try_from(0u16), Err("Unsupported machine"));
}
