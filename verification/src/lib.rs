//! `dwat` reads type information out of DWARF (v4/v5) debugging data.
//!
//! The library enumerates, looks up and pretty-prints the C type universe
//! recorded in an object file: structs, unions, enums, typedefs, pointers,
//! arrays, base types, qualified types, subroutine types and variables.
//! Every function is given a contract over a mathematical model of the DWARF
//! data, and the contracts are proved.
use vstd::prelude::*;
use vstd::string::*;

pub mod model;
pub mod dwarf;
pub mod types;
pub mod layout;
pub mod index;
pub mod text;
pub mod format;
pub mod prelude;

pub use dwarf::{Dwarf, DwarfUnit, GimliCU, OwnedDwarf, StructHashKey};
pub use layout::{AlignmentStats, MemberLayout};
pub use types::{Array, Base, CompileUnit, Const, Enum, Enumerator, FormalParameter, Language, Member};
pub use types::{Pointer, Restrict, Struct, Subprogram, Subroutine, Type, Typedef, Union, Variable, Volatile};
pub use types::{HasLocation, HasMembers, InnerType, NamedType, Tagged};

verus! {

/// What went wrong, without the message that an [`Error`] may carry.
#[derive(Clone, Copy, Debug, PartialEq, Eq, Structural)]
pub enum ErrorKind {
    DwarfLoadError,
    ObjectError,
    HeaderOffsetError,
    CUError,
    DIEError,
    UnimplementedError,
    InvalidAttributeError,
    NameAttributeNotFound,
    TypeAttributeNotFound,
    ByteSizeAttributeNotFound,
    BitSizeAttributeNotFound,
    MemberLocationAttributeNotFound,
    AlignmentAttributeNotFound,
    ProducerAttributeNotFound,
    LanguageAttributeNotFound,
    SizeNotApplicable,
}

/// Error type for parsing/loading DWARF information.
///
/// The first seven variants are fatal. The remaining ones say that an
/// attribute was legitimately absent; callers such as the formatter decide
/// what that means.
#[derive(Debug)]
pub enum Error {
    /// The DWARF sections could not be loaded.
    DwarfLoadError(String),
    /// The object file's framing is invalid.
    ObjectError(String),
    /// A unit header has no offset into `.debug_info`. Every header that the
    /// decoder reads from that section has one, so no function of this library
    /// returns this error.
    HeaderOffsetError,
    /// A handle's unit offset does not resolve to a compile unit.
    CUError(String),
    /// A handle's entry offset does not resolve to a DIE.
    DIEError(String),
    /// A form or tag that this library does not handle.
    UnimplementedError(String),
    /// An attribute's value has an unexpected form.
    InvalidAttributeError,
    NameAttributeNotFound,
    TypeAttributeNotFound,
    ByteSizeAttributeNotFound,
    BitSizeAttributeNotFound,
    MemberLocationAttributeNotFound,
    AlignmentAttributeNotFound,
    ProducerAttributeNotFound,
    LanguageAttributeNotFound,
    /// The type has no size: a subroutine type.
    SizeNotApplicable,
}

impl View for Error {
    type V = ErrorKind;

    open spec fn view(&self) -> ErrorKind {
        match self {
            Error::DwarfLoadError(_) => ErrorKind::DwarfLoadError,
            Error::ObjectError(_) => ErrorKind::ObjectError,
            Error::HeaderOffsetError => ErrorKind::HeaderOffsetError,
            Error::CUError(_) => ErrorKind::CUError,
            Error::DIEError(_) => ErrorKind::DIEError,
            Error::UnimplementedError(_) => ErrorKind::UnimplementedError,
            Error::InvalidAttributeError => ErrorKind::InvalidAttributeError,
            Error::NameAttributeNotFound => ErrorKind::NameAttributeNotFound,
            Error::TypeAttributeNotFound => ErrorKind::TypeAttributeNotFound,
            Error::ByteSizeAttributeNotFound => ErrorKind::ByteSizeAttributeNotFound,
            Error::BitSizeAttributeNotFound => ErrorKind::BitSizeAttributeNotFound,
            Error::MemberLocationAttributeNotFound => ErrorKind::MemberLocationAttributeNotFound,
            Error::AlignmentAttributeNotFound => ErrorKind::AlignmentAttributeNotFound,
            Error::ProducerAttributeNotFound => ErrorKind::ProducerAttributeNotFound,
            Error::LanguageAttributeNotFound => ErrorKind::LanguageAttributeNotFound,
            Error::SizeNotApplicable => ErrorKind::SizeNotApplicable,
        }
    }
}

impl Error {
    /// The kind of this error.
    pub fn kind(&self) -> (k: ErrorKind)
        ensures
            k == self@,
    {
        match self {
            Error::DwarfLoadError(_) => ErrorKind::DwarfLoadError,
            Error::ObjectError(_) => ErrorKind::ObjectError,
            Error::HeaderOffsetError => ErrorKind::HeaderOffsetError,
            Error::CUError(_) => ErrorKind::CUError,
            Error::DIEError(_) => ErrorKind::DIEError,
            Error::UnimplementedError(_) => ErrorKind::UnimplementedError,
            Error::InvalidAttributeError => ErrorKind::InvalidAttributeError,
            Error::NameAttributeNotFound => ErrorKind::NameAttributeNotFound,
            Error::TypeAttributeNotFound => ErrorKind::TypeAttributeNotFound,
            Error::ByteSizeAttributeNotFound => ErrorKind::ByteSizeAttributeNotFound,
            Error::BitSizeAttributeNotFound => ErrorKind::BitSizeAttributeNotFound,
            Error::MemberLocationAttributeNotFound => ErrorKind::MemberLocationAttributeNotFound,
            Error::AlignmentAttributeNotFound => ErrorKind::AlignmentAttributeNotFound,
            Error::ProducerAttributeNotFound => ErrorKind::ProducerAttributeNotFound,
            Error::LanguageAttributeNotFound => ErrorKind::LanguageAttributeNotFound,
            Error::SizeNotApplicable => ErrorKind::SizeNotApplicable,
        }
    }

    /// Whether the error is fatal: it reports data that cannot be read, and
    /// not an attribute that is legitimately absent.
    pub fn is_fatal(&self) -> (fatal: bool)
        ensures
            fatal == self@.is_fatal(),
    {
        match self {
            Error::DwarfLoadError(_) => true,
            Error::ObjectError(_) => true,
            Error::HeaderOffsetError => true,
            Error::CUError(_) => true,
            Error::DIEError(_) => true,
            Error::UnimplementedError(_) => true,
            Error::InvalidAttributeError => true,
            _ => false,
        }
    }
}

/// The message of an error about the position `offset`: what went wrong, and
/// the offset in decimal.
pub open spec fn spec_message_at(what: Seq<char>, offset: usize) -> Seq<char> {
    what + " at offset "@ + crate::text::spec_decimal(offset as nat)
}

fn message_at(what: &str, offset: usize) -> (message: String)
    ensures
        message@ == spec_message_at(what@, offset),
{
    let mut message = String::from_str(what);
    message.append(" at offset ");
    message.append(crate::text::decimal(offset).as_str());
    message
}

impl Error {
    /// The error for an entry offset at which no DIE can be read. The message
    /// names the offset.
    pub fn die_not_found(offset: usize) -> (e: Error)
        ensures
            e matches Error::DIEError(message) && message@ == spec_message_at("Failed to find DIE"@, offset),
    {
        Error::DIEError(message_at("Failed to find DIE", offset))
    }

    /// The error for an entry offset from which no walk can start. The
    /// message names the offset.
    pub fn seek_failed(offset: usize) -> (e: Error)
        ensures
            e matches Error::DIEError(message) && message@ == spec_message_at("Failed to seek to DIE"@, offset),
    {
        Error::DIEError(message_at("Failed to seek to DIE", offset))
    }

    /// The error for a header offset that does not resolve to a compile
    /// unit. The message names the offset and the decoder's reason.
    pub fn unit_not_found(offset: usize, cause: &str) -> (e: Error)
        ensures
            e matches Error::CUError(message) && message@ == spec_message_at(
                "Failed to seek to UnitHeader"@,
                offset,
            ) + ", error: "@ + cause@,
    {
        let mut message = message_at("Failed to seek to UnitHeader", offset);
        message.append(", error: ");
        message.append(cause);
        Error::CUError(message)
    }
}

impl ErrorKind {
    pub open spec fn is_fatal(self) -> bool {
        self == ErrorKind::DwarfLoadError || self == ErrorKind::ObjectError
            || self == ErrorKind::HeaderOffsetError || self == ErrorKind::CUError
            || self == ErrorKind::DIEError || self == ErrorKind::UnimplementedError
            || self == ErrorKind::InvalidAttributeError
    }
}

/// Whether an executable result is the one that a contract names: the
/// same value, or an error of the same kind.
pub open spec fn agrees<T>(got: Result<T, Error>, want: Result<T, ErrorKind>) -> bool {
    match want {
        Ok(v) => got == Ok::<T, Error>(v),
        Err(k) => got is Err && got->Err_0@ == k,
    }
}

/// As [`agrees`], for text: the same characters, or an error of the same kind.
pub open spec fn agrees_text(got: Result<String, Error>, want: Result<Seq<char>, ErrorKind>) -> bool {
    match want {
        Ok(v) => got is Ok && got->Ok_0@ == v,
        Err(k) => got is Err && got->Err_0@ == k,
    }
}

} // verus!
