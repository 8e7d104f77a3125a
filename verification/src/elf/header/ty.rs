//! The kind of object file.

use vstd::prelude::*;
use vstd::std_specs::convert::TryFromSpecImpl;

verus! {

/// The object file type.
///
/// https://gabi.xinuos.com/elf/02-eheader.html#contents-of-the-elf-header
#[derive(Debug, Clone, Copy, PartialEq, Eq)]
pub enum Type {
    /// no file type
    NoType,
    Relocatable,
    Executable,
    SharedObject,
    Core,
    LoOs,
    HiOs,
    LoProc,
    HiProc,
}

/// The type that a value of `e_type` stands for, if it stands for one.
pub open spec fn type_of(value: u16) -> Result<Type, &'static str> {
    if value == 0 {
        Ok(Type::NoType)
    } else if value == 1 {
        Ok(Type::Relocatable)
    } else if value == 2 {
        Ok(Type::Executable)
    } else if value == 3 {
        Ok(Type::SharedObject)
    } else if value == 4 {
        Ok(Type::Core)
    } else if value == 0xfe00 {
        Ok(Type::LoOs)
    } else if value == 0xfeff {
        Ok(Type::HiOs)
    } else if value == 0xff00 {
        Ok(Type::LoProc)
    } else if value == 0xffff {
        Ok(Type::HiProc)
    } else {
        Err("Invalid u16 value for e_type")
    }
}

impl TryFrom<u16> for Type {
    type Error = &'static str;

    fn try_from(value: u16) -> (r: Result<Self, Self::Error>) {
        match value {
            0 => Ok(Type::NoType),
            1 => Ok(Type::Relocatable),
            2 => Ok(Type::Executable),
            3 => Ok(Type::SharedObject),
            4 => Ok(Type::Core),
            0xfe00 => Ok(Type::LoOs),
            0xfeff => Ok(Type::HiOs),
            0xff00 => Ok(Type::LoProc),
            0xffff => Ok(Type::HiProc),
            _ => Err("Invalid u16 value for e_type"),
        }
    }
}

impl TryFromSpecImpl<u16> for Type {
    open spec fn obeys_try_from_spec() -> bool {
        true
    }

    open spec fn try_from_spec(value: u16) -> Result<Self, Self::Error> {
        type_of(value)
    }
}

} // verus!
