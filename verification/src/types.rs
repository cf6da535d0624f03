//! The closed, kernel-defined enumerations of record and named-entry type tags.

use vstd::prelude::*;

use crate::Error;

verus! {

/// Record type tag: untyped bytes.
pub const KSTAT_TYPE_RAW: u8 = 0;

/// Record type tag: name/value entries.
pub const KSTAT_TYPE_NAMED: u8 = 1;

/// Record type tag: interrupt counters.
pub const KSTAT_TYPE_INTR: u8 = 2;

/// Record type tag: I/O counters.
pub const KSTAT_TYPE_IO: u8 = 3;

/// Record type tag: event timers.
pub const KSTAT_TYPE_TIMER: u8 = 4;

/// Named-entry data type tag: byte sequence.
pub const KSTAT_DATA_CHAR: u8 = 0;

/// Named-entry data type tag: signed 32-bit integer.
pub const KSTAT_DATA_INT32: u8 = 1;

/// Named-entry data type tag: unsigned 32-bit integer.
pub const KSTAT_DATA_UINT32: u8 = 2;

/// Named-entry data type tag: signed 64-bit integer.
pub const KSTAT_DATA_INT64: u8 = 3;

/// Named-entry data type tag: unsigned 64-bit integer.
pub const KSTAT_DATA_UINT64: u8 = 4;

/// Named-entry data type tag: NUL-terminated UTF-8 string.
pub const KSTAT_DATA_STRING: u8 = 9;

/// The type of a kstat.
#[derive(Clone, Copy, Debug, PartialEq, Eq, Structural)]
pub enum Type {
    Raw,
    Named,
    Intr,
    Io,
    Timer,
}

impl Type {
    /// The tag under which the kernel declares a record of this type.
    pub open spec fn tag(self) -> u8 {
        match self {
            Type::Raw => KSTAT_TYPE_RAW,
            Type::Named => KSTAT_TYPE_NAMED,
            Type::Intr => KSTAT_TYPE_INTR,
            Type::Io => KSTAT_TYPE_IO,
            Type::Timer => KSTAT_TYPE_TIMER,
        }
    }

    /// The typed form of an outer record type tag; unknown tags are rejected.
    pub open spec fn spec_try_from(t: u8) -> Result<Type, Error> {
        if t == KSTAT_TYPE_RAW {
            Ok(Type::Raw)
        } else if t == KSTAT_TYPE_NAMED {
            Ok(Type::Named)
        } else if t == KSTAT_TYPE_INTR {
            Ok(Type::Intr)
        } else if t == KSTAT_TYPE_IO {
            Ok(Type::Io)
        } else if t == KSTAT_TYPE_TIMER {
            Ok(Type::Timer)
        } else {
            Err(Error::InvalidType(t))
        }
    }

    /// Validate an outer record type tag, rejecting any unknown value.
    pub fn try_from(t: u8) -> (r: Result<Type, Error>)
        ensures
            r == Type::spec_try_from(t),
            r matches Ok(ty) ==> ty.tag() == t,
    {
        match t {
            0 => Ok(Type::Raw),
            1 => Ok(Type::Named),
            2 => Ok(Type::Intr),
            3 => Ok(Type::Io),
            4 => Ok(Type::Timer),
            other => Err(Error::InvalidType(other)),
        }
    }
}

/// The data type of a single name/value pair of a named kstat.
#[derive(Clone, Copy, Debug, PartialEq, Eq, Structural)]
pub enum NamedType {
    Char,
    Int32,
    UInt32,
    Int64,
    UInt64,
    String,
}

impl NamedType {
    /// The tag under which the kernel declares a named entry of this type.
    pub open spec fn tag(self) -> u8 {
        match self {
            NamedType::Char => KSTAT_DATA_CHAR,
            NamedType::Int32 => KSTAT_DATA_INT32,
            NamedType::UInt32 => KSTAT_DATA_UINT32,
            NamedType::Int64 => KSTAT_DATA_INT64,
            NamedType::UInt64 => KSTAT_DATA_UINT64,
            NamedType::String => KSTAT_DATA_STRING,
        }
    }

    /// The typed form of a named-entry data type tag; unknown tags are rejected.
    pub open spec fn spec_try_from(t: u8) -> Result<NamedType, Error> {
        if t == KSTAT_DATA_CHAR {
            Ok(NamedType::Char)
        } else if t == KSTAT_DATA_INT32 {
            Ok(NamedType::Int32)
        } else if t == KSTAT_DATA_UINT32 {
            Ok(NamedType::UInt32)
        } else if t == KSTAT_DATA_INT64 {
            Ok(NamedType::Int64)
        } else if t == KSTAT_DATA_UINT64 {
            Ok(NamedType::UInt64)
        } else if t == KSTAT_DATA_STRING {
            Ok(NamedType::String)
        } else {
            Err(Error::InvalidNamedType(t))
        }
    }

    /// Validate a named-entry data type tag, rejecting any unknown value.
    pub fn try_from(t: u8) -> (r: Result<NamedType, Error>)
        ensures
            r == NamedType::spec_try_from(t),
            r matches Ok(ty) ==> ty.tag() == t,
    {
        match t {
            0 => Ok(NamedType::Char),
            1 => Ok(NamedType::Int32),
            2 => Ok(NamedType::UInt32),
            3 => Ok(NamedType::Int64),
            4 => Ok(NamedType::UInt64),
            9 => Ok(NamedType::String),
            other => Err(Error::InvalidNamedType(other)),
        }
    }
}

} // verus!
