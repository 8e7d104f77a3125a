//! The architecture that an ELF file asks for.

use vstd::prelude::*;
use vstd::std_specs::convert::TryFromSpecImpl;

verus! {

/// The required architecture of a file. Only 32-bit ARM is known.
/// https://gabi.xinuos.com/elf/02-eheader.html#contents-of-the-elf-header
#[allow(non_camel_case_types)]
#[derive(Debug, Clone, Copy, PartialEq, Eq)]
pub enum Machine {
    EM_ARM,
}

/// The value of `e_machine` for 32-bit ARM.
pub const EM_ARM: u16 = 40;

impl TryFrom<u16> for Machine {
    type Error = &'static str;

    fn try_from(value: u16) -> (r: Result<Self, Self::Error>) {
        if value == EM_ARM {
            Ok(Machine::EM_ARM)
        } else {
            Err("Unsupported machine")
        }
    }
}

impl TryFromSpecImpl<u16> for Machine {
    open spec fn obeys_try_from_spec() -> bool {
        true
    }

    open spec fn try_from_spec(value: u16) -> Result<Self, Self::Error> {
        if value == EM_ARM {
            Ok(Machine::EM_ARM)
        } else {
            Err("Unsupported machine")
        }
    }
}

} // verus!
