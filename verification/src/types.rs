//! Interfaces representing DWARF type information
use vstd::prelude::*;
use vstd::string::*;
use crate::dwarf::{BorrowableDwarf, DwarfContext, DwarfUnit, GimliCU, spec_unit_context, unit_model};
use crate::dwarf::{debug_line_str, debug_str, die_attr, die_inline_string, die_tag};
use crate::dwarf::{entries_after, entries_left, next_dfs, unit_address_size, unit_length};
use crate::model::{Attr, AttrForm, AttrRead, DieHead, DwarfModel, UnitModel};
use crate::model::{DW_AT_ALIGNMENT, DW_AT_BIT_SIZE, DW_AT_BYTE_SIZE, DW_AT_CONST_VALUE, DW_AT_COUNT};
use crate::model::{DW_AT_DATA_MEMBER_LOCATION, DW_AT_LANGUAGE, DW_AT_NAME, DW_AT_PRODUCER, DW_AT_TYPE};
use crate::model::{DW_AT_UPPER_BOUND, DW_TAG_ENUMERATOR, DW_TAG_FORMAL_PARAMETER, DW_TAG_MEMBER, DW_TAG_SUBRANGE_TYPE};
use crate::model::{DW_TAG_ARRAY_TYPE, DW_TAG_BASE_TYPE, DW_TAG_COMPILE_UNIT, DW_TAG_CONST_TYPE};
use crate::model::{DW_TAG_ENUMERATION_TYPE, DW_TAG_POINTER_TYPE, DW_TAG_RESTRICT_TYPE};
use crate::model::{DW_TAG_STRUCTURE_TYPE, DW_TAG_SUBPROGRAM, DW_TAG_SUBROUTINE_TYPE, DW_TAG_TYPEDEF};
use crate::model::{DW_TAG_UNION_TYPE, DW_TAG_VARIABLE, DW_TAG_VOLATILE_TYPE};
use crate::{agrees, agrees_text, Error, ErrorKind};

verus! {

/// Represents a struct type
#[derive(Clone, Copy, Debug, PartialEq, Eq, Structural)]
pub struct Struct {
    pub location: DwarfUnit,
}

/// Represents an array type
#[derive(Clone, Copy, Debug, PartialEq, Eq, Structural)]
pub struct Array {
    pub location: DwarfUnit,
}

/// Represents an enum type
#[derive(Clone, Copy, Debug, PartialEq, Eq, Structural)]
pub struct Enum {
    pub location: DwarfUnit,
}

/// Represents a pointer to a type
#[derive(Clone, Copy, Debug, PartialEq, Eq, Structural)]
pub struct Pointer {
    pub location: DwarfUnit,
}

/// Represents a type that is a function pointer prototype
#[derive(Clone, Copy, Debug, PartialEq, Eq, Structural)]
pub struct Subroutine {
    pub location: DwarfUnit,
}

/// Represents a typedef renaming of a type
#[derive(Clone, Copy, Debug, PartialEq, Eq, Structural)]
pub struct Typedef {
    pub location: DwarfUnit,
}

/// Represents a union type
#[derive(Clone, Copy, Debug, PartialEq, Eq, Structural)]
pub struct Union {
    pub location: DwarfUnit,
}

/// Represents a base type, e.g. int, long, etc...
#[derive(Clone, Copy, Debug, PartialEq, Eq, Structural)]
pub struct Base {
    pub location: DwarfUnit,
}

/// Represents the C const type-modifier
#[derive(Clone, Copy, Debug, PartialEq, Eq, Structural)]
pub struct Const {
    pub location: DwarfUnit,
}

/// Represents the C volatile type-modifier
#[derive(Clone, Copy, Debug, PartialEq, Eq, Structural)]
pub struct Volatile {
    pub location: DwarfUnit,
}

/// Represents the C restrict type-modifier
#[derive(Clone, Copy, Debug, PartialEq, Eq, Structural)]
pub struct Restrict {
    pub location: DwarfUnit,
}

/// Represents one parameter of a subroutine type
#[derive(Clone, Copy, Debug, PartialEq, Eq, Structural)]
pub struct FormalParameter {
    pub location: DwarfUnit,
}

/// Represents a variable declaration
#[derive(Clone, Copy, Debug, PartialEq, Eq, Structural)]
pub struct Variable {
    pub location: DwarfUnit,
}

/// Represents a value of an enum option
#[derive(Clone, Debug)]
pub struct Enumerator {
    pub name: String,
    pub value: u64,
}

/// Represents a field of a struct or union
#[derive(Clone, Copy, Debug, PartialEq, Eq, Structural)]
pub struct Member {
    pub location: DwarfUnit,
}

/// Represents a DWARF compile unit
#[derive(Clone, Copy, Debug, PartialEq, Eq, Structural)]
pub struct CompileUnit {
    pub location: DwarfUnit,
}

/// Represents a subprogram/function
#[derive(Clone, Copy, Debug, PartialEq, Eq, Structural)]
pub struct Subprogram {
    pub location: DwarfUnit,
}

/// Enum of supported types which may be returned by get_type()
#[derive(Clone, Copy, Debug, PartialEq, Eq, Structural)]
pub enum Type {
    Struct(Struct),
    Array(Array),
    Enum(Enum),
    Pointer(Pointer),
    Subroutine(Subroutine),
    Typedef(Typedef),
    Union(Union),
    Base(Base),
    Const(Const),
    Volatile(Volatile),
    Restrict(Restrict),
    Variable(Variable),
}

impl Type {
    /// The position of the DIE that the handle designates.
    pub open spec fn spec_location(self) -> DwarfUnit {
        match self {
            Type::Struct(t) => t.location,
            Type::Array(t) => t.location,
            Type::Enum(t) => t.location,
            Type::Pointer(t) => t.location,
            Type::Subroutine(t) => t.location,
            Type::Typedef(t) => t.location,
            Type::Union(t) => t.location,
            Type::Base(t) => t.location,
            Type::Const(t) => t.location,
            Type::Volatile(t) => t.location,
            Type::Restrict(t) => t.location,
            Type::Variable(t) => t.location,
        }
    }

    /// The position of the DIE that the handle designates.
    pub fn location(&self) -> (location: DwarfUnit)
        ensures
            location == self.spec_location(),
    {
        match self {
            Type::Struct(t) => t.location,
            Type::Array(t) => t.location,
            Type::Enum(t) => t.location,
            Type::Pointer(t) => t.location,
            Type::Subroutine(t) => t.location,
            Type::Typedef(t) => t.location,
            Type::Union(t) => t.location,
            Type::Base(t) => t.location,
            Type::Const(t) => t.location,
            Type::Volatile(t) => t.location,
            Type::Restrict(t) => t.location,
            Type::Variable(t) => t.location,
        }
    }
}

/// The handle that a DIE in a type position becomes: each supported tag has
/// its variant, and any other tag is not handled.
pub open spec fn spec_entry_to_type(location: DwarfUnit, tag: u16) -> Result<Type, ErrorKind> {
    if tag == DW_TAG_ARRAY_TYPE {
        Ok(Type::Array(Array { location }))
    } else if tag == DW_TAG_ENUMERATION_TYPE {
        Ok(Type::Enum(Enum { location }))
    } else if tag == DW_TAG_POINTER_TYPE {
        Ok(Type::Pointer(Pointer { location }))
    } else if tag == DW_TAG_STRUCTURE_TYPE {
        Ok(Type::Struct(Struct { location }))
    } else if tag == DW_TAG_SUBROUTINE_TYPE {
        Ok(Type::Subroutine(Subroutine { location }))
    } else if tag == DW_TAG_TYPEDEF {
        Ok(Type::Typedef(Typedef { location }))
    } else if tag == DW_TAG_UNION_TYPE {
        Ok(Type::Union(Union { location }))
    } else if tag == DW_TAG_BASE_TYPE {
        Ok(Type::Base(Base { location }))
    } else if tag == DW_TAG_CONST_TYPE {
        Ok(Type::Const(Const { location }))
    } else if tag == DW_TAG_VOLATILE_TYPE {
        Ok(Type::Volatile(Volatile { location }))
    } else if tag == DW_TAG_RESTRICT_TYPE {
        Ok(Type::Restrict(Restrict { location }))
    } else {
        Err(ErrorKind::UnimplementedError)
    }
}

/// Turns the DIE at `location`, whose tag is `tag`, into a typed handle.
pub fn entry_to_type(location: DwarfUnit, tag: u16) -> (r: Result<Type, Error>)
    ensures
        agrees(r, spec_entry_to_type(location, tag)),
        r is Ok ==> r->Ok_0.spec_location() == location,
{
    if tag == DW_TAG_ARRAY_TYPE {
        Ok(Type::Array(Array { location }))
    } else if tag == DW_TAG_ENUMERATION_TYPE {
        Ok(Type::Enum(Enum { location }))
    } else if tag == DW_TAG_POINTER_TYPE {
        Ok(Type::Pointer(Pointer { location }))
    } else if tag == DW_TAG_STRUCTURE_TYPE {
        Ok(Type::Struct(Struct { location }))
    } else if tag == DW_TAG_SUBROUTINE_TYPE {
        Ok(Type::Subroutine(Subroutine { location }))
    } else if tag == DW_TAG_TYPEDEF {
        Ok(Type::Typedef(Typedef { location }))
    } else if tag == DW_TAG_UNION_TYPE {
        Ok(Type::Union(Union { location }))
    } else if tag == DW_TAG_BASE_TYPE {
        Ok(Type::Base(Base { location }))
    } else if tag == DW_TAG_CONST_TYPE {
        Ok(Type::Const(Const { location }))
    } else if tag == DW_TAG_VOLATILE_TYPE {
        Ok(Type::Volatile(Volatile { location }))
    } else if tag == DW_TAG_RESTRICT_TYPE {
        Ok(Type::Restrict(Restrict { location }))
    } else {
        Err(Error::UnimplementedError("entry_to_type, unhandled dwarf type".to_string()))
    }
}

/// The text of a string attribute of the DIE at `offset`: stored inline, in
/// `.debug_str` or in `.debug_line_str`. Where the attribute is absent the
/// result is the error `missing`; where its form is another, or its text
/// cannot be read, the attribute is invalid.
pub open spec fn spec_string_attr(
    m: DwarfModel,
    u: UnitModel,
    offset: usize,
    at: u16,
    missing: ErrorKind,
) -> Result<Seq<char>, ErrorKind> {
    match u.attr(offset, at) {
        None => Err(ErrorKind::DIEError),
        Some(AttrRead::Failed) => Err(ErrorKind::InvalidAttributeError),
        Some(AttrRead::Absent) => Err(missing),
        Some(AttrRead::Present(attr)) => {
            let text = match attr.form {
                AttrForm::String => u.inline_string(offset, at),
                AttrForm::DebugStrRef(to) => m.string(to),
                AttrForm::DebugLineStrRef(to) => m.line_string(to),
                _ => None,
            };
            match text {
                Some(s) => Ok(s),
                None => Err(ErrorKind::InvalidAttributeError),
            }
        },
    }
}

/// The name of the DIE at `offset`.
pub open spec fn spec_entry_name(m: DwarfModel, u: UnitModel, offset: usize) -> Result<Seq<char>, ErrorKind> {
    spec_string_attr(m, u, offset, DW_AT_NAME, ErrorKind::NameAttributeNotFound)
}

/// The error that reports the kind `missing` of an absent attribute.
fn missing_attribute(missing: ErrorKind) -> (e: Error)
    ensures
        e@ == (if missing.is_fatal() { ErrorKind::InvalidAttributeError } else { missing }),
{
    match missing {
        ErrorKind::NameAttributeNotFound => Error::NameAttributeNotFound,
        ErrorKind::TypeAttributeNotFound => Error::TypeAttributeNotFound,
        ErrorKind::ByteSizeAttributeNotFound => Error::ByteSizeAttributeNotFound,
        ErrorKind::BitSizeAttributeNotFound => Error::BitSizeAttributeNotFound,
        ErrorKind::MemberLocationAttributeNotFound => Error::MemberLocationAttributeNotFound,
        ErrorKind::AlignmentAttributeNotFound => Error::AlignmentAttributeNotFound,
        ErrorKind::ProducerAttributeNotFound => Error::ProducerAttributeNotFound,
        ErrorKind::LanguageAttributeNotFound => Error::LanguageAttributeNotFound,
        ErrorKind::SizeNotApplicable => Error::SizeNotApplicable,
        _ => Error::InvalidAttributeError,
    }
}

/// Reads a string attribute of the DIE at `offset` of `unit`.
pub(crate) fn get_entry_string<D: BorrowableDwarf>(
    dwarf: &D,
    unit: &GimliCU<'_>,
    offset: usize,
    at: u16,
    missing: ErrorKind,
) -> (r: Result<String, Error>)
    requires
        !missing.is_fatal(),
    ensures
        agrees_text(r, spec_string_attr(dwarf.model(), unit_model(unit), offset, at, missing)),
{
    match die_attr(unit, offset, at) {
        None => Err(Error::die_not_found(offset)),
        Some(AttrRead::Failed) => Err(Error::InvalidAttributeError),
        Some(AttrRead::Absent) => Err(missing_attribute(missing)),
        Some(AttrRead::Present(attr)) => {
            let text = match attr.form {
                AttrForm::String => die_inline_string(unit, offset, at),
                AttrForm::DebugStrRef(to) => {
                    let view = dwarf.borrow_dwarf();
                    debug_str(&view, to)
                },
                AttrForm::DebugLineStrRef(to) => {
                    let view = dwarf.borrow_dwarf();
                    debug_line_str(&view, to)
                },
                _ => None,
            };
            match text {
                Some(s) => Ok(s),
                None => Err(Error::InvalidAttributeError),
            }
        },
    }
}

/// Try to retrieve the name attribute as a string for a DIE if one exists
pub fn get_entry_name<D: BorrowableDwarf>(dwarf: &D, unit: &GimliCU<'_>, offset: usize) -> (r: Result<
    String,
    Error,
>)
    ensures
        agrees_text(r, spec_entry_name(dwarf.model(), unit_model(unit), offset)),
{
    get_entry_string(dwarf, unit, offset, DW_AT_NAME, ErrorKind::NameAttributeNotFound)
}

/// The type that the DIE at `location` refers to by its type attribute: the
/// DIE of the same unit that the attribute names, as a typed handle. Any
/// value but a reference within the unit counts as no type.
pub open spec fn spec_get_type(u: UnitModel, location: DwarfUnit) -> Result<Type, ErrorKind> {
    match u.attr(location.entry_offset, DW_AT_TYPE) {
        None => Err(ErrorKind::DIEError),
        Some(AttrRead::Failed) => Err(ErrorKind::InvalidAttributeError),
        Some(AttrRead::Absent) => Err(ErrorKind::TypeAttributeNotFound),
        Some(AttrRead::Present(attr)) => match attr.form {
            AttrForm::UnitRef(to) => {
                let type_loc = DwarfUnit { die_offset: location.die_offset, entry_offset: to };
                match u.tag(to) {
                    None => Err(ErrorKind::DIEError),
                    Some(tag) => spec_entry_to_type(type_loc, tag),
                }
            },
            _ => Err(ErrorKind::TypeAttributeNotFound),
        },
    }
}

/// Follows the type attribute of the DIE at `location` within `unit`.
pub fn u_get_type_at(unit: &GimliCU<'_>, location: DwarfUnit) -> (r: Result<Type, Error>)
    ensures
        agrees(r, spec_get_type(unit_model(unit), location)),
{
    match die_attr(unit, location.entry_offset, DW_AT_TYPE) {
        None => Err(Error::die_not_found(location.entry_offset)),
        Some(AttrRead::Failed) => Err(Error::InvalidAttributeError),
        Some(AttrRead::Absent) => Err(Error::TypeAttributeNotFound),
        Some(AttrRead::Present(attr)) => match attr.form {
            AttrForm::UnitRef(to) => {
                let type_loc = DwarfUnit { die_offset: location.die_offset, entry_offset: to };
                match die_tag(unit, to) {
                    None => Err(Error::die_not_found(to)),
                    Some(tag) => entry_to_type(type_loc, tag),
                }
            },
            _ => Err(Error::TypeAttributeNotFound),
        },
    }
}

/// A handle that designates a DIE.
pub trait HasLocation {
    /// The position of the DIE.
    spec fn spec_location(&self) -> DwarfUnit;

    /// The position of the DIE.
    fn location(&self) -> (location: DwarfUnit)
        ensures
            location == self.spec_location(),
    ;
}

/// This trait specifies that a type is associated with some DWARF tag
pub trait Tagged: HasLocation + Sized {
    /// The DWARF tag of the DIEs that the type stands for.
    spec fn spec_tag() -> u16;

    /// A handle for the DIE at `location`.
    fn new(location: DwarfUnit) -> (handle: Self)
        ensures
            handle.spec_location() == location,
    ;

    /// The DWARF tag of the DIEs that the type stands for.
    fn tag() -> (tag: u16)
        ensures
            tag == Self::spec_tag(),
    ;
}

/// The name of a handle's DIE, read in an already resolved unit.
pub trait UnitNamedType: HasLocation {
    /// The name of the DIE at the handle's entry offset in `unit`.
    fn u_name<D: BorrowableDwarf>(&self, dwarf: &D, unit: &GimliCU<'_>) -> (r: Result<String, Error>)
        ensures
            agrees_text(r, spec_entry_name(dwarf.model(), unit_model(unit), self.spec_location().entry_offset)),
    {
        let location = self.location();
        get_entry_name(dwarf, unit, location.entry_offset)
    }
}

/// The name of the DIE at `location`, in the unit that the position names.
pub open spec fn spec_name(m: DwarfModel, location: DwarfUnit) -> Result<Seq<char>, ErrorKind> {
    match spec_unit_context(m, location) {
        Ok(u) => spec_entry_name(m, u, location.entry_offset),
        Err(e) => Err(e),
    }
}

/// This trait specifies that a type carries a name
pub trait NamedType: UnitNamedType {
    /// The name of the handle's DIE.
    fn name<D: DwarfContext>(&self, dwarf: &D) -> (r: Result<String, Error>)
        ensures
            agrees_text(r, spec_name(dwarf.model(), self.spec_location())),
    {
        let location = self.location();
        match dwarf.unit_context(&location) {
            Ok(unit) => self.u_name(dwarf, &unit),
            Err(e) => Err(e),
        }
    }
}

/// The inner type of a handle's DIE, read in an already resolved unit.
pub trait UnitInnerType: HasLocation {
    /// The type that the handle's DIE refers to.
    fn u_get_type(&self, unit: &GimliCU<'_>) -> (r: Result<Type, Error>)
        ensures
            agrees(r, spec_get_type(unit_model(unit), self.spec_location())),
    {
        u_get_type_at(unit, self.location())
    }
}

/// The type that the DIE at `location` refers to, in the unit that the
/// position names.
pub open spec fn spec_inner_type(m: DwarfModel, location: DwarfUnit) -> Result<Type, ErrorKind> {
    match spec_unit_context(m, location) {
        Ok(u) => spec_get_type(u, location),
        Err(e) => Err(e),
    }
}

/// This trait specifies that a types contains another type (singular)
pub trait InnerType: UnitInnerType {
    /// The type that the handle's DIE refers to.
    fn get_type<D: DwarfContext>(&self, dwarf: &D) -> (r: Result<Type, Error>)
        ensures
            agrees(r, spec_inner_type(dwarf.model(), self.spec_location())),
    {
        let location = self.location();
        match dwarf.unit_context(&location) {
            Ok(unit) => self.u_get_type(&unit),
            Err(e) => Err(e),
        }
    }
}

/// As [`agrees`], for lists: the same items in the same order, or an error of
/// the same kind.
pub open spec fn agrees_list<T>(got: Result<Vec<T>, Error>, want: Result<Seq<T>, ErrorKind>) -> bool {
    match want {
        Ok(v) => got is Ok && got->Ok_0@ == v,
        Err(k) => got is Err && got->Err_0@ == k,
    }
}

/// The value of a constant attribute of the DIE at `offset`. Where the
/// attribute is absent the result is the error `missing`. A DWARF expression
/// or a location list in its place is not implemented where `expressions` is
/// set, and invalid otherwise; any other form is invalid, and so is a value
/// that does not fit the machine's word.
pub open spec fn spec_const_attr(
    u: UnitModel,
    offset: usize,
    at: u16,
    missing: ErrorKind,
    expressions: bool,
) -> Result<usize, ErrorKind> {
    match u.attr(offset, at) {
        None => Err(ErrorKind::DIEError),
        Some(AttrRead::Failed) => Err(ErrorKind::InvalidAttributeError),
        Some(AttrRead::Absent) => Err(missing),
        Some(AttrRead::Present(attr)) => spec_const_value(attr, expressions),
    }
}

/// The value of an attribute that is present, as a constant.
pub open spec fn spec_const_value(attr: Attr, expressions: bool) -> Result<usize, ErrorKind> {
    match attr.udata {
        Some(v) => if v <= usize::MAX {
            Ok(v as usize)
        } else {
            Err(ErrorKind::InvalidAttributeError)
        },
        None => match attr.form {
            AttrForm::Exprloc => Err(
                if expressions {
                    ErrorKind::UnimplementedError
                } else {
                    ErrorKind::InvalidAttributeError
                },
            ),
            AttrForm::LocationListsRef => Err(
                if expressions {
                    ErrorKind::UnimplementedError
                } else {
                    ErrorKind::InvalidAttributeError
                },
            ),
            _ => Err(ErrorKind::InvalidAttributeError),
        },
    }
}

/// The name of the attribute with the code `at` in messages.
pub open spec fn spec_attribute_name(at: u16) -> Seq<char> {
    if at == DW_AT_BYTE_SIZE {
        "byte_size"@
    } else if at == DW_AT_BIT_SIZE {
        "bit_size"@
    } else if at == DW_AT_DATA_MEMBER_LOCATION {
        "member_location"@
    } else if at == DW_AT_UPPER_BOUND {
        "upper_bound"@
    } else if at == DW_AT_COUNT {
        "count"@
    } else if at == DW_AT_ALIGNMENT {
        "alignment"@
    } else {
        "attribute"@
    }
}

fn attribute_name(at: u16) -> (name: &'static str)
    ensures
        name@ == spec_attribute_name(at),
{
    if at == DW_AT_BYTE_SIZE {
        "byte_size"
    } else if at == DW_AT_BIT_SIZE {
        "bit_size"
    } else if at == DW_AT_DATA_MEMBER_LOCATION {
        "member_location"
    } else if at == DW_AT_UPPER_BOUND {
        "upper_bound"
    } else if at == DW_AT_COUNT {
        "count"
    } else if at == DW_AT_ALIGNMENT {
        "alignment"
    } else {
        "attribute"
    }
}

/// The error for an attribute whose value has a form that is not
/// implemented. The message names the attribute and the form.
fn unimplemented_form(at: u16, form: &str) -> (e: Error)
    ensures
        e matches Error::UnimplementedError(message) && message@ == spec_attribute_name(at) + " with "@ + form@
            + " value"@,
{
    let mut message = String::from_str(attribute_name(at));
    message.append(" with ");
    message.append(form);
    message.append(" value");
    Error::UnimplementedError(message)
}

fn const_value(attr: Attr, expressions: bool, at: u16) -> (r: Result<usize, Error>)
    ensures
        agrees(r, spec_const_value(attr, expressions)),
{
    match attr.udata {
        Some(v) => if v <= usize::MAX as u64 {
            Ok(v as usize)
        } else {
            Err(Error::InvalidAttributeError)
        },
        None => match attr.form {
            AttrForm::Exprloc => if expressions {
                Err(unimplemented_form(at, "exprloc"))
            } else {
                Err(Error::InvalidAttributeError)
            },
            AttrForm::LocationListsRef => if expressions {
                Err(unimplemented_form(at, "loclist"))
            } else {
                Err(Error::InvalidAttributeError)
            },
            _ => Err(Error::InvalidAttributeError),
        },
    }
}

/// Reads a constant attribute of the DIE at `offset` of `unit`.
pub(crate) fn get_entry_const(
    unit: &GimliCU<'_>,
    offset: usize,
    at: u16,
    missing: ErrorKind,
    expressions: bool,
) -> (r: Result<usize, Error>)
    requires
        !missing.is_fatal(),
    ensures
        agrees(r, spec_const_attr(unit_model(unit), offset, at, missing, expressions)),
{
    match die_attr(unit, offset, at) {
        None => Err(Error::die_not_found(offset)),
        Some(AttrRead::Failed) => Err(Error::InvalidAttributeError),
        Some(AttrRead::Absent) => Err(missing_attribute(missing)),
        Some(AttrRead::Present(attr)) => const_value(attr, expressions, at),
    }
}

/// The byte size attribute of the DIE at `offset`.
pub open spec fn spec_entry_byte_size(u: UnitModel, offset: usize) -> Result<usize, ErrorKind> {
    spec_const_attr(u, offset, DW_AT_BYTE_SIZE, ErrorKind::ByteSizeAttributeNotFound, true)
}

/// Reads the byte size attribute of the DIE at `offset` of `unit`.
pub fn get_entry_byte_size(unit: &GimliCU<'_>, offset: usize) -> (r: Result<usize, Error>)
    ensures
        agrees(r, spec_entry_byte_size(unit_model(unit), offset)),
{
    get_entry_const(unit, offset, DW_AT_BYTE_SIZE, ErrorKind::ByteSizeAttributeNotFound, true)
}

/// The alignment attribute of the DIE at `offset`.
pub open spec fn spec_entry_alignment(u: UnitModel, offset: usize) -> Result<usize, ErrorKind> {
    spec_const_attr(u, offset, DW_AT_ALIGNMENT, ErrorKind::AlignmentAttributeNotFound, false)
}

/// Reads the alignment attribute of the DIE at `offset` of `unit`. The
/// attribute came with DWARF 5; compilers emit it for earlier versions too.
pub fn get_entry_alignment(unit: &GimliCU<'_>, offset: usize) -> (r: Result<usize, Error>)
    ensures
        agrees(r, spec_entry_alignment(unit_model(unit), offset)),
{
    get_entry_const(unit, offset, DW_AT_ALIGNMENT, ErrorKind::AlignmentAttributeNotFound, false)
}

/// The children among the DIEs of a walk: those one level below the DIE
/// that the walk started on. `depth` is the level of the DIE met last. The
/// walk is over when it comes back to the level it started on.
pub open spec fn children_from(walk: Seq<DieHead>, depth: int) -> Seq<DieHead>
    decreases walk.len(),
{
    if walk.len() == 0 {
        Seq::empty()
    } else {
        let level = depth + walk[0].delta_depth;
        if level <= 0 || level > isize::MAX {
            Seq::empty()
        } else if level == 1 {
            seq![walk[0]] + children_from(walk.skip(1), level)
        } else {
            children_from(walk.skip(1), level)
        }
    }
}

/// The children of the DIE at `offset`, in the order of the section.
pub open spec fn spec_children(u: UnitModel, offset: usize) -> Result<Seq<DieHead>, ErrorKind> {
    match u.walk(offset) {
        None => Err(ErrorKind::DIEError),
        Some(walk) => Ok(children_from(walk, 0)),
    }
}

/// Collects the children of the DIE at `offset` of `unit`.
pub fn u_children(unit: &GimliCU<'_>, offset: usize) -> (r: Result<Vec<DieHead>, Error>)
    ensures
        agrees_list(r, spec_children(unit_model(unit), offset)),
{
    let mut cursor = match entries_after(unit, offset) {
        Some(cursor) => cursor,
        None => {
            return Err(Error::seek_failed(offset));
        },
    };
    let ghost walk = entries_left(&cursor);
    let mut children: Vec<DieHead> = Vec::new();
    let mut depth: isize = 0;
    let mut done = false;
    while !done
        invariant
            0 <= depth,
            !done ==> children_from(walk, 0) == children@ + children_from(entries_left(&cursor), depth as int),
            done ==> children_from(walk, 0) == children@,
        decreases entries_left(&cursor).len() + (if done { 0nat } else { 1nat }),
    {
        match next_dfs(&mut cursor) {
            None => {
                done = true;
            },
            Some(head) => {
                if head.delta_depth > 0 && depth > isize::MAX - head.delta_depth {
                    done = true;
                } else {
                    let level: isize = depth + head.delta_depth;
                    if level <= 0 {
                        done = true;
                    } else {
                        if level == 1 {
                            children.push(head);
                        }
                        depth = level;
                    }
                }
            },
        }
    }
    Ok(children)
}

/// The members among the children of a struct or union whose unit header
/// stands at `die_offset`: the children with the member tag, in order.
pub open spec fn members_among(children: Seq<DieHead>, die_offset: usize) -> Seq<Member>
    decreases children.len(),
{
    if children.len() == 0 {
        Seq::empty()
    } else {
        let rest = members_among(children.drop_last(), die_offset);
        let last = children.last();
        if last.tag == DW_TAG_MEMBER {
            rest.push(Member { location: DwarfUnit { die_offset, entry_offset: last.offset } })
        } else {
            rest
        }
    }
}

/// The members of the struct or union at `location`.
pub open spec fn spec_members(u: UnitModel, location: DwarfUnit) -> Result<Seq<Member>, ErrorKind> {
    match spec_children(u, location.entry_offset) {
        Ok(children) => Ok(members_among(children, location.die_offset)),
        Err(e) => Err(e),
    }
}

/// Collects the members of the struct or union at `location` within `unit`.
pub fn u_members_at(unit: &GimliCU<'_>, location: DwarfUnit) -> (r: Result<Vec<Member>, Error>)
    ensures
        agrees_list(r, spec_members(unit_model(unit), location)),
{
    let children = match u_children(unit, location.entry_offset) {
        Ok(children) => children,
        Err(e) => {
            return Err(e);
        },
    };
    let mut members: Vec<Member> = Vec::new();
    let mut i: usize = 0;
    while i < children.len()
        invariant
            i <= children.len(),
            members@ == members_among(children@.take(i as int), location.die_offset),
        decreases children.len() - i,
    {
        let head = children[i];
        assert(children@.take(i + 1).drop_last() == children@.take(i as int));
        if head.tag == DW_TAG_MEMBER {
            members.push(
                Member { location: DwarfUnit { die_offset: location.die_offset, entry_offset: head.offset } },
            );
        }
        i += 1;
    }
    assert(children@.take(i as int) == children@);
    Ok(members)
}

/// The members of a struct or union, read in an already resolved unit.
pub trait UnitHasMembers: HasLocation {
    /// The members of the handle's DIE, in source order.
    fn u_members(&self, unit: &GimliCU<'_>) -> (r: Result<Vec<Member>, Error>)
        ensures
            agrees_list(r, spec_members(unit_model(unit), self.spec_location())),
    {
        u_members_at(unit, self.location())
    }
}

/// The members of the struct or union at `location`, in the unit that the
/// position names.
pub open spec fn spec_members_of(m: DwarfModel, location: DwarfUnit) -> Result<Seq<Member>, ErrorKind> {
    match spec_unit_context(m, location) {
        Ok(u) => spec_members(u, location),
        Err(e) => Err(e),
    }
}

/// This trait specifies that a type has members: a struct or a union
pub trait HasMembers: UnitHasMembers {
    /// Get the members/fields of this type
    fn members<D: DwarfContext>(&self, dwarf: &D) -> (r: Result<Vec<Member>, Error>)
        ensures
            agrees_list(r, spec_members_of(dwarf.model(), self.spec_location())),
    {
        let location = self.location();
        match dwarf.unit_context(&location) {
            Ok(unit) => self.u_members(&unit),
            Err(e) => Err(e),
        }
    }
}

/// The parameters among the children of a subroutine type whose unit header
/// stands at `die_offset`: the leading children with the parameter tag.
pub open spec fn params_among(children: Seq<DieHead>, die_offset: usize) -> Seq<FormalParameter>
    decreases children.len(),
{
    if children.len() == 0 || children[0].tag != DW_TAG_FORMAL_PARAMETER {
        Seq::empty()
    } else {
        seq![FormalParameter { location: DwarfUnit { die_offset, entry_offset: children[0].offset } }]
            + params_among(children.skip(1), die_offset)
    }
}

/// The parameters of the subroutine type at `location`.
pub open spec fn spec_params(u: UnitModel, location: DwarfUnit) -> Result<Seq<FormalParameter>, ErrorKind> {
    match spec_children(u, location.entry_offset) {
        Ok(children) => Ok(params_among(children, location.die_offset)),
        Err(e) => Err(e),
    }
}

/// The parameters of the subroutine type at `location`, in the unit that
/// the position names.
pub open spec fn spec_params_of(m: DwarfModel, location: DwarfUnit) -> Result<Seq<FormalParameter>, ErrorKind> {
    match spec_unit_context(m, location) {
        Ok(u) => spec_params(u, location),
        Err(e) => Err(e),
    }
}

impl Subroutine {
    /// The parameters of the subroutine type, read in an already resolved
    /// unit: its children up to the first that is no parameter.
    pub fn u_get_params(&self, unit: &GimliCU<'_>) -> (r: Result<Vec<FormalParameter>, Error>)
        ensures
            agrees_list(r, spec_params(unit_model(unit), self.location)),
    {
        let children = match u_children(unit, self.location.entry_offset) {
            Ok(children) => children,
            Err(e) => {
                return Err(e);
            },
        };
        let mut params: Vec<FormalParameter> = Vec::new();
        let mut i: usize = 0;
        let ghost all = params_among(children@, self.location.die_offset);
        assert(children@.skip(0) == children@);
        assert(Seq::<FormalParameter>::empty() + all == all);
        while i < children.len() && children[i].tag == DW_TAG_FORMAL_PARAMETER
            invariant
                i <= children.len(),
                all == params@ + params_among(children@.skip(i as int), self.location.die_offset),
            decreases children.len() - i,
        {
            let head = children[i];
            assert(children@.skip(i as int).skip(1) == children@.skip(i + 1));
            assert(children@.skip(i as int)[0] == head);
            params.push(
                FormalParameter {
                    location: DwarfUnit { die_offset: self.location.die_offset, entry_offset: head.offset },
                },
            );
            i += 1;
        }
        assert(params_among(children@.skip(i as int), self.location.die_offset) == Seq::<FormalParameter>::empty())
            by {
            if i < children.len() {
                assert(children@.skip(i as int)[0] == children@[i as int]);
            }
        }
        Ok(params)
    }

    /// The parameters of the subroutine type.
    pub fn get_params<D: DwarfContext>(&self, dwarf: &D) -> (r: Result<Vec<FormalParameter>, Error>)
        ensures
            agrees_list(r, spec_params_of(dwarf.model(), self.location)),
    {
        match dwarf.unit_context(&self.location) {
            Ok(unit) => self.u_get_params(&unit),
            Err(e) => Err(e),
        }
    }
}

/// The bound that a subrange DIE bears: its upper bound plus one, or else its
/// count; `None` where it bears neither.
pub open spec fn spec_subrange_bound(u: UnitModel, offset: usize) -> Option<Result<usize, ErrorKind>> {
    match u.attr(offset, DW_AT_UPPER_BOUND) {
        None => Some(Err(ErrorKind::DIEError)),
        Some(AttrRead::Failed) => Some(Err(ErrorKind::InvalidAttributeError)),
        Some(AttrRead::Present(attr)) => Some(spec_upper_bound_value(attr)),
        Some(AttrRead::Absent) => match u.attr(offset, DW_AT_COUNT) {
            None => Some(Err(ErrorKind::DIEError)),
            Some(AttrRead::Failed) => Some(Err(ErrorKind::InvalidAttributeError)),
            Some(AttrRead::Present(attr)) => Some(spec_const_value(attr, true)),
            Some(AttrRead::Absent) => None,
        },
    }
}

/// The number of items that an upper bound stands for: one more than the
/// bound. A bound of -1, signed or as the largest unsigned value there is,
/// stands for no items; a bound below that is invalid.
pub open spec fn spec_upper_bound_value(attr: Attr) -> Result<usize, ErrorKind> {
    match attr.udata {
        Some(v) => if v == u64::MAX {
            Ok(0usize)
        } else if v + 1 <= usize::MAX {
            Ok((v + 1) as usize)
        } else {
            Err(ErrorKind::InvalidAttributeError)
        },
        None => match attr.sdata {
            Some(v) => if v == -1 {
                Ok(0usize)
            } else {
                Err(ErrorKind::InvalidAttributeError)
            },
            None => spec_const_value(attr, true),
        },
    }
}

fn upper_bound_value(attr: Attr) -> (r: Result<usize, Error>)
    ensures
        agrees(r, spec_upper_bound_value(attr)),
{
    match attr.udata {
        Some(v) => if v == u64::MAX {
            Ok(0)
        } else if v + 1 <= usize::MAX as u64 {
            Ok((v + 1) as usize)
        } else {
            Err(Error::InvalidAttributeError)
        },
        None => match attr.sdata {
            Some(v) => if v == -1 {
                Ok(0)
            } else {
                Err(Error::InvalidAttributeError)
            },
            None => const_value(attr, true, DW_AT_UPPER_BOUND),
        },
    }
}

fn subrange_bound(unit: &GimliCU<'_>, offset: usize) -> (r: Option<Result<usize, Error>>)
    ensures
        match spec_subrange_bound(unit_model(unit), offset) {
            Some(want) => r is Some && agrees(r->Some_0, want),
            None => r is None,
        },
{
    match die_attr(unit, offset, DW_AT_UPPER_BOUND) {
        None => Some(Err(Error::die_not_found(offset))),
        Some(AttrRead::Failed) => Some(Err(Error::InvalidAttributeError)),
        Some(AttrRead::Present(attr)) => Some(upper_bound_value(attr)),
        Some(AttrRead::Absent) => match die_attr(unit, offset, DW_AT_COUNT) {
            None => Some(Err(Error::die_not_found(offset))),
            Some(AttrRead::Failed) => Some(Err(Error::InvalidAttributeError)),
            Some(AttrRead::Present(attr)) => Some(const_value(attr, true, DW_AT_COUNT)),
            Some(AttrRead::Absent) => None,
        },
    }
}

/// The bound of an array with these children: that of the first of its
/// leading subrange children that bears one, and 0 where none does.
pub open spec fn bound_among(u: UnitModel, children: Seq<DieHead>) -> Result<usize, ErrorKind>
    decreases children.len(),
{
    if children.len() == 0 || children[0].tag != DW_TAG_SUBRANGE_TYPE {
        Ok(0usize)
    } else {
        match spec_subrange_bound(u, children[0].offset) {
            Some(bound) => bound,
            None => bound_among(u, children.skip(1)),
        }
    }
}

/// The number of items of the array at `offset`.
pub open spec fn spec_bound(u: UnitModel, offset: usize) -> Result<usize, ErrorKind> {
    match spec_children(u, offset) {
        Ok(children) => bound_among(u, children),
        Err(e) => Err(e),
    }
}

/// The number of items of the array at `location`, in the unit that the
/// position names.
pub open spec fn spec_bound_of(m: DwarfModel, location: DwarfUnit) -> Result<usize, ErrorKind> {
    match spec_unit_context(m, location) {
        Ok(u) => spec_bound(u, location.entry_offset),
        Err(e) => Err(e),
    }
}

impl Array {
    /// The number of items in the array, read in an already resolved unit.
    /// An array without a bound, as a flexible array member is, has 0 items.
    pub fn u_get_bound(&self, unit: &GimliCU<'_>) -> (r: Result<usize, Error>)
        ensures
            agrees(r, spec_bound(unit_model(unit), self.location.entry_offset)),
    {
        let children = match u_children(unit, self.location.entry_offset) {
            Ok(children) => children,
            Err(e) => {
                return Err(e);
            },
        };
        let ghost u = unit_model(unit);
        let mut i: usize = 0;
        assert(children@.skip(0) == children@);
        while i < children.len() && children[i].tag == DW_TAG_SUBRANGE_TYPE
            invariant
                i <= children.len(),
                u == unit_model(unit),
                spec_children(u, self.location.entry_offset) == Ok::<Seq<DieHead>, ErrorKind>(children@),
                bound_among(u, children@) == bound_among(u, children@.skip(i as int)),
            decreases children.len() - i,
        {
            assert(children@.skip(i as int).skip(1) == children@.skip(i + 1));
            assert(children@.skip(i as int)[0] == children@[i as int]);
            assert(children@.skip(i as int).len() > 0);
            match subrange_bound(unit, children[i].offset) {
                Some(bound) => {
                    assert(bound_among(u, children@.skip(i as int)) == spec_subrange_bound(
                        u,
                        children@[i as int].offset,
                    )->Some_0);
                    return bound;
                },
                None => {},
            }
            i += 1;
        }
        proof {
            if i < children.len() {
                assert(children@.skip(i as int)[0] == children@[i as int]);
            }
        }
        Ok(0)
    }

    /// The number of items in the array
    pub fn get_bound<D: DwarfContext>(&self, dwarf: &D) -> (r: Result<usize, Error>)
        ensures
            agrees(r, spec_bound_of(dwarf.model(), self.location)),
    {
        match dwarf.unit_context(&self.location) {
            Ok(unit) => self.u_get_bound(&unit),
            Err(e) => Err(e),
        }
    }
}

/// The size in bytes of the type `typ`, derived within the unit `u`.
///
/// A struct or a base type has the size that its byte size attribute gives.
/// A pointer has the unit's address size, whatever its attributes say. A
/// subroutine type has no size. A union, an enum, a typedef, a qualified type
/// and an array have the size that their byte size attribute gives where it
/// can be read; else a union is as large as its largest member, an array is
/// its item size times its bound, and the others are as large as the type
/// they refer to. A variable is as large as its type.
///
/// `fuel` bounds how many references the derivation follows, so that it ends
/// on data in which types refer to each other in a circle: a chain longer
/// than `fuel` is invalid.
pub open spec fn spec_byte_size(u: UnitModel, typ: Type, fuel: nat) -> Result<usize, ErrorKind>
    decreases fuel, 2nat, 0nat,
{
    let location = typ.spec_location();
    match typ {
        Type::Struct(_) => spec_entry_byte_size(u, location.entry_offset),
        Type::Base(_) => spec_entry_byte_size(u, location.entry_offset),
        Type::Pointer(_) => Ok(u.address_size as usize),
        Type::Subroutine(_) => Err(ErrorKind::SizeNotApplicable),
        Type::Variable(_) => spec_inner_size(u, location, fuel),
        Type::Union(_) => match spec_entry_byte_size(u, location.entry_offset) {
            Ok(size) => Ok(size),
            Err(ErrorKind::DIEError) => Err(ErrorKind::DIEError),
            Err(_) => if fuel == 0 {
                Err(ErrorKind::InvalidAttributeError)
            } else {
                match spec_members(u, location) {
                    Ok(members) => largest_member(u, members, (fuel - 1) as nat),
                    Err(e) => Err(e),
                }
            },
        },
        Type::Array(_) => match spec_entry_byte_size(u, location.entry_offset) {
            Ok(size) => Ok(size),
            Err(ErrorKind::DIEError) => Err(ErrorKind::DIEError),
            Err(_) => match spec_inner_size(u, location, fuel) {
                Ok(item) => match spec_bound(u, location.entry_offset) {
                    Ok(bound) => if item * bound <= usize::MAX {
                        Ok((item * bound) as usize)
                    } else {
                        Err(ErrorKind::InvalidAttributeError)
                    },
                    Err(e) => Err(e),
                },
                Err(e) => Err(e),
            },
        },
        _ => match spec_entry_byte_size(u, location.entry_offset) {
            Ok(size) => Ok(size),
            Err(ErrorKind::DIEError) => Err(ErrorKind::DIEError),
            Err(_) => spec_inner_size(u, location, fuel),
        },
    }
}

/// The size of the type that the DIE at `location` refers to.
pub open spec fn spec_inner_size(u: UnitModel, location: DwarfUnit, fuel: nat) -> Result<usize, ErrorKind>
    decreases fuel, 1nat, 0nat,
{
    if fuel == 0 {
        Err(ErrorKind::InvalidAttributeError)
    } else {
        match spec_get_type(u, location) {
            Ok(inner) => spec_byte_size(u, inner, (fuel - 1) as nat),
            Err(e) => Err(e),
        }
    }
}

/// The size of the largest among the types of `members`, and 0 where there
/// is no member. The first member whose type or size cannot be had decides
/// the error.
pub open spec fn largest_member(u: UnitModel, members: Seq<Member>, fuel: nat) -> Result<usize, ErrorKind>
    decreases fuel, 3nat, members.len(),
{
    if members.len() == 0 {
        Ok(0usize)
    } else {
        match largest_member(u, members.drop_last(), fuel) {
            Ok(best) => match spec_get_type(u, members.last().location) {
                Ok(inner) => match spec_byte_size(u, inner, fuel) {
                    Ok(size) => Ok(if size > best { size } else { best }),
                    Err(e) => Err(e),
                },
                Err(e) => Err(e),
            },
            Err(e) => Err(e),
        }
    }
}

/// An error among the first `n` members is the error of them all.
proof fn lemma_largest_member_fails(u: UnitModel, members: Seq<Member>, n: int, fuel: nat)
    requires
        0 <= n <= members.len(),
        largest_member(u, members.take(n), fuel) is Err,
    ensures
        largest_member(u, members, fuel) == largest_member(u, members.take(n), fuel),
    decreases members.len() - n,
{
    if n < members.len() {
        assert(members.take(n + 1).drop_last() == members.take(n));
        lemma_largest_member_fails(u, members, n + 1, fuel);
    } else {
        assert(members.take(n) == members);
    }
}

/// The size of the type `typ` within `u`, with as many references followed
/// as the unit is long: more than any chain of distinct DIEs in it has.
pub open spec fn spec_size_of(u: UnitModel, typ: Type) -> Result<usize, ErrorKind> {
    spec_byte_size(u, typ, u.size as nat)
}

/// The size of the type `typ`, in the unit that its position names.
pub open spec fn spec_type_size(m: DwarfModel, typ: Type) -> Result<usize, ErrorKind> {
    match spec_unit_context(m, typ.spec_location()) {
        Ok(u) => spec_size_of(u, typ),
        Err(e) => Err(e),
    }
}

fn byte_size_or_inner(unit: &GimliCU<'_>, location: DwarfUnit, fuel: usize) -> (r: Result<usize, Error>)
    ensures
        agrees(
            r,
            match spec_entry_byte_size(unit_model(unit), location.entry_offset) {
                Ok(size) => Ok(size),
                Err(ErrorKind::DIEError) => Err(ErrorKind::DIEError),
                Err(_) => spec_inner_size(unit_model(unit), location, fuel as nat),
            },
        ),
    decreases fuel, 1nat, 1nat,
{
    match get_entry_byte_size(unit, location.entry_offset) {
        Ok(size) => Ok(size),
        Err(Error::DIEError(message)) => Err(Error::DIEError(message)),
        Err(_) => inner_size(unit, location, fuel),
    }
}

fn inner_size(unit: &GimliCU<'_>, location: DwarfUnit, fuel: usize) -> (r: Result<usize, Error>)
    ensures
        agrees(r, spec_inner_size(unit_model(unit), location, fuel as nat)),
    decreases fuel, 1nat, 0nat,
{
    if fuel == 0 {
        Err(Error::InvalidAttributeError)
    } else {
        match u_get_type_at(unit, location) {
            Ok(inner) => byte_size_within(unit, inner, fuel - 1),
            Err(e) => Err(e),
        }
    }
}

/// Derives the size of `typ` within `unit`, following at most `fuel`
/// references from one type to another.
pub fn byte_size_within(unit: &GimliCU<'_>, typ: Type, fuel: usize) -> (r: Result<usize, Error>)
    ensures
        agrees(r, spec_byte_size(unit_model(unit), typ, fuel as nat)),
    decreases fuel, 2nat, 0nat,
{
    let location = typ.location();
    match typ {
        Type::Struct(_) => get_entry_byte_size(unit, location.entry_offset),
        Type::Base(_) => get_entry_byte_size(unit, location.entry_offset),
        Type::Pointer(_) => Ok(unit_address_size(unit) as usize),
        Type::Subroutine(_) => Err(Error::SizeNotApplicable),
        Type::Variable(_) => inner_size(unit, location, fuel),
        Type::Union(_) => match get_entry_byte_size(unit, location.entry_offset) {
            Ok(size) => Ok(size),
            Err(Error::DIEError(message)) => Err(Error::DIEError(message)),
            Err(_) => if fuel == 0 {
                Err(Error::InvalidAttributeError)
            } else {
                match u_members_at(unit, location) {
                    Ok(members) => {
                        let ghost u = unit_model(unit);
                        let ghost rest = (fuel - 1) as nat;
                        let mut best: usize = 0;
                        let mut i: usize = 0;
                        while i < members.len()
                            invariant
                                i <= members.len(),
                                u == unit_model(unit),
                                rest == fuel - 1,
                                fuel > 0,
                                largest_member(u, members@.take(i as int), rest) == Ok::<usize, ErrorKind>(
                                    best,
                                ),
                                typ is Union,
                                location == typ.spec_location(),
                                spec_members(u, location) == Ok::<Seq<Member>, ErrorKind>(members@),
                                spec_entry_byte_size(u, location.entry_offset) is Err,
                                spec_entry_byte_size(u, location.entry_offset) != Err::<usize, ErrorKind>(
                                    ErrorKind::DIEError,
                                ),
                            decreases members.len() - i,
                        {
                            assert(members@.take(i + 1).drop_last() == members@.take(i as int));
                            let size = match u_get_type_at(unit, members[i].location) {
                                Ok(inner) => byte_size_within(unit, inner, fuel - 1),
                                Err(e) => Err(e),
                            };
                            match size {
                                Ok(size) => {
                                    if size > best {
                                        best = size;
                                    }
                                },
                                Err(e) => {
                                    proof {
                                        lemma_largest_member_fails(u, members@, i + 1, rest);
                                    }
                                    return Err(e);
                                },
                            }
                            i += 1;
                        }
                        assert(members@.take(i as int) == members@);
                        Ok(best)
                    },
                    Err(e) => Err(e),
                }
            },
        },
        Type::Array(array) => match get_entry_byte_size(unit, location.entry_offset) {
            Ok(size) => Ok(size),
            Err(Error::DIEError(message)) => Err(Error::DIEError(message)),
            Err(_) => match inner_size(unit, location, fuel) {
                Ok(item) => match array.u_get_bound(unit) {
                    Ok(bound) => match item.checked_mul(bound) {
                        Some(size) => Ok(size),
                        None => Err(Error::InvalidAttributeError),
                    },
                    Err(e) => Err(e),
                },
                Err(e) => Err(e),
            },
        },
        _ => byte_size_or_inner(unit, location, fuel),
    }
}

impl Type {
    /// The size of the type in bytes, derived in an already resolved unit.
    pub fn u_byte_size(&self, unit: &GimliCU<'_>) -> (r: Result<usize, Error>)
        ensures
            agrees(r, spec_size_of(unit_model(unit), *self)),
    {
        byte_size_within(unit, *self, unit_length(unit))
    }

    /// The size of the type in bytes.
    pub fn byte_size<D: DwarfContext>(&self, dwarf: &D) -> (r: Result<usize, Error>)
        ensures
            agrees(r, spec_type_size(dwarf.model(), *self)),
    {
        let location = self.location();
        match dwarf.unit_context(&location) {
            Ok(unit) => self.u_byte_size(&unit),
            Err(e) => Err(e),
        }
    }
}

/// A size that a derivation arrives at does not depend on how many
/// references it was allowed to follow: with more it arrives at the same.
pub proof fn lemma_more_fuel_same_size(u: UnitModel, typ: Type, fuel: nat, more: nat)
    requires
        fuel <= more,
        spec_byte_size(u, typ, fuel) is Ok,
    ensures
        spec_byte_size(u, typ, more) == spec_byte_size(u, typ, fuel),
    decreases fuel, 2nat, 0nat,
{
    let location = typ.spec_location();
    match typ {
        Type::Struct(_) => {},
        Type::Base(_) => {},
        Type::Pointer(_) => {},
        Type::Subroutine(_) => {},
        Type::Variable(_) => {
            lemma_more_fuel_same_inner_size(u, location, fuel, more);
        },
        Type::Union(_) => {
            match spec_entry_byte_size(u, location.entry_offset) {
                Ok(_) => {},
                Err(ErrorKind::DIEError) => {},
                Err(_) => {
                    lemma_more_fuel_same_largest(
                        u,
                        spec_members(u, location)->Ok_0,
                        (fuel - 1) as nat,
                        (more - 1) as nat,
                    );
                },
            }
        },
        _ => {
            match spec_entry_byte_size(u, location.entry_offset) {
                Ok(_) => {},
                Err(ErrorKind::DIEError) => {},
                Err(_) => {
                    lemma_more_fuel_same_inner_size(u, location, fuel, more);
                },
            }
        },
    }
}

proof fn lemma_more_fuel_same_inner_size(u: UnitModel, location: DwarfUnit, fuel: nat, more: nat)
    requires
        fuel <= more,
        spec_inner_size(u, location, fuel) is Ok,
    ensures
        spec_inner_size(u, location, more) == spec_inner_size(u, location, fuel),
    decreases fuel, 1nat, 0nat,
{
    lemma_more_fuel_same_size(u, spec_get_type(u, location)->Ok_0, (fuel - 1) as nat, (more - 1) as nat);
}

proof fn lemma_more_fuel_same_largest(u: UnitModel, members: Seq<Member>, fuel: nat, more: nat)
    requires
        fuel <= more,
        largest_member(u, members, fuel) is Ok,
    ensures
        largest_member(u, members, more) == largest_member(u, members, fuel),
    decreases fuel, 3nat, members.len(),
{
    if members.len() > 0 {
        lemma_more_fuel_same_largest(u, members.drop_last(), fuel, more);
        lemma_more_fuel_same_size(u, spec_get_type(u, members.last().location)->Ok_0, fuel, more);
    }
}

/// Where the size of an array is derived, it is the size of one item times
/// the number of items.
pub proof fn lemma_array_size_is_items_times_bound(u: UnitModel, array: Array)
    requires
        spec_size_of(u, Type::Array(array)) is Ok,
        spec_entry_byte_size(u, array.location.entry_offset) is Err,
    ensures
        spec_typed_size(u, array.location) is Ok,
        spec_bound(u, array.location.entry_offset) is Ok,
        spec_size_of(u, Type::Array(array))->Ok_0 == spec_typed_size(u, array.location)->Ok_0 * spec_bound(
            u,
            array.location.entry_offset,
        )->Ok_0,
{
    let inner = spec_get_type(u, array.location)->Ok_0;
    assert(spec_inner_size(u, array.location, u.size as nat) is Ok);
    lemma_more_fuel_same_size(u, inner, (u.size - 1) as nat, u.size as nat);
}

/// Where the size of a typedef, a qualified type, an enum or a variable is
/// derived, it is the size of the type that it refers to.
pub proof fn lemma_derived_size_is_inner_size(u: UnitModel, typ: Type)
    requires
        typ is Typedef || typ is Const || typ is Volatile || typ is Restrict || typ is Enum || typ is Variable,
        spec_size_of(u, typ) is Ok,
        typ is Variable || spec_entry_byte_size(u, typ.spec_location().entry_offset) is Err,
    ensures
        spec_size_of(u, typ) == spec_typed_size(u, typ.spec_location()),
{
    let inner = spec_get_type(u, typ.spec_location())->Ok_0;
    assert(spec_inner_size(u, typ.spec_location(), u.size as nat) is Ok);
    lemma_more_fuel_same_size(u, inner, (u.size - 1) as nat, u.size as nat);
}

/// A struct's size is what its byte size attribute says, and a pointer's size
/// is the address size of its unit, however many references a derivation may
/// follow.
pub proof fn lemma_sizes_without_derivation(u: UnitModel, location: DwarfUnit, fuel: nat)
    ensures
        spec_byte_size(u, Type::Struct(Struct { location }), fuel) == spec_entry_byte_size(
            u,
            location.entry_offset,
        ),
        spec_byte_size(u, Type::Pointer(Pointer { location }), fuel) == Ok::<usize, ErrorKind>(
            u.address_size as usize,
        ),
{
}

/// Where the DIE of a struct bears a byte size attribute that is an unsigned
/// constant, the struct's size is that constant.
pub proof fn lemma_struct_size_is_attribute(u: UnitModel, location: DwarfUnit, attr: Attr, size: usize, fuel: nat)
    requires
        u.attr(location.entry_offset, DW_AT_BYTE_SIZE) == Some(AttrRead::Present(attr)),
        attr.udata == Some(size as u64),
    ensures
        spec_byte_size(u, Type::Struct(Struct { location }), fuel) == Ok::<usize, ErrorKind>(size),
{
}

impl HasLocation for Struct {
    open spec fn spec_location(&self) -> DwarfUnit {
        self.location
    }

    fn location(&self) -> (location: DwarfUnit) {
        self.location
    }
}

impl Tagged for Struct {
    open spec fn spec_tag() -> u16 {
        DW_TAG_STRUCTURE_TYPE
    }

    fn new(location: DwarfUnit) -> (handle: Self) {
        Self { location }
    }

    fn tag() -> (tag: u16) {
        DW_TAG_STRUCTURE_TYPE
    }
}

impl UnitNamedType for Struct {}

impl NamedType for Struct {}

impl UnitHasMembers for Struct {}

impl HasMembers for Struct {}

impl Struct {
    /// The size of the struct in bytes: its byte size attribute. Read in an already resolved unit.
    pub fn u_byte_size(&self, unit: &GimliCU<'_>) -> (r: Result<usize, Error>)
        ensures
            agrees(r, spec_size_of(unit_model(unit), Type::Struct(*self))),
    {
        Type::Struct(*self).u_byte_size(unit)
    }

    /// The size of the struct in bytes: its byte size attribute.
    pub fn byte_size<D: DwarfContext>(&self, dwarf: &D) -> (r: Result<usize, Error>)
        ensures
            agrees(r, spec_type_size(dwarf.model(), Type::Struct(*self))),
    {
        Type::Struct(*self).byte_size(dwarf)
    }
}

impl HasLocation for Array {
    open spec fn spec_location(&self) -> DwarfUnit {
        self.location
    }

    fn location(&self) -> (location: DwarfUnit) {
        self.location
    }
}

impl Tagged for Array {
    open spec fn spec_tag() -> u16 {
        DW_TAG_ARRAY_TYPE
    }

    fn new(location: DwarfUnit) -> (handle: Self) {
        Self { location }
    }

    fn tag() -> (tag: u16) {
        DW_TAG_ARRAY_TYPE
    }
}

impl UnitNamedType for Array {}

impl NamedType for Array {}

impl UnitInnerType for Array {}

impl InnerType for Array {}

impl Array {
    /// The memory footprint of the entire array. Read in an already resolved unit.
    pub fn u_byte_size(&self, unit: &GimliCU<'_>) -> (r: Result<usize, Error>)
        ensures
            agrees(r, spec_size_of(unit_model(unit), Type::Array(*self))),
    {
        Type::Array(*self).u_byte_size(unit)
    }

    /// The memory footprint of the entire array.
    pub fn byte_size<D: DwarfContext>(&self, dwarf: &D) -> (r: Result<usize, Error>)
        ensures
            agrees(r, spec_type_size(dwarf.model(), Type::Array(*self))),
    {
        Type::Array(*self).byte_size(dwarf)
    }
}

impl HasLocation for Enum {
    open spec fn spec_location(&self) -> DwarfUnit {
        self.location
    }

    fn location(&self) -> (location: DwarfUnit) {
        self.location
    }
}

impl Tagged for Enum {
    open spec fn spec_tag() -> u16 {
        DW_TAG_ENUMERATION_TYPE
    }

    fn new(location: DwarfUnit) -> (handle: Self) {
        Self { location }
    }

    fn tag() -> (tag: u16) {
        DW_TAG_ENUMERATION_TYPE
    }
}

impl UnitNamedType for Enum {}

impl NamedType for Enum {}

impl UnitInnerType for Enum {}

impl InnerType for Enum {}

impl Enum {
    /// The memory footprint of the enum: its byte size attribute, or else the size of its underlying type. Read in an already resolved unit.
    pub fn u_byte_size(&self, unit: &GimliCU<'_>) -> (r: Result<usize, Error>)
        ensures
            agrees(r, spec_size_of(unit_model(unit), Type::Enum(*self))),
    {
        Type::Enum(*self).u_byte_size(unit)
    }

    /// The memory footprint of the enum: its byte size attribute, or else the size of its underlying type.
    pub fn byte_size<D: DwarfContext>(&self, dwarf: &D) -> (r: Result<usize, Error>)
        ensures
            agrees(r, spec_type_size(dwarf.model(), Type::Enum(*self))),
    {
        Type::Enum(*self).byte_size(dwarf)
    }
}

impl HasLocation for Pointer {
    open spec fn spec_location(&self) -> DwarfUnit {
        self.location
    }

    fn location(&self) -> (location: DwarfUnit) {
        self.location
    }
}

impl Tagged for Pointer {
    open spec fn spec_tag() -> u16 {
        DW_TAG_POINTER_TYPE
    }

    fn new(location: DwarfUnit) -> (handle: Self) {
        Self { location }
    }

    fn tag() -> (tag: u16) {
        DW_TAG_POINTER_TYPE
    }
}

impl UnitInnerType for Pointer {}

impl InnerType for Pointer {}

impl Pointer {
    /// The size of a pointer: the address size of its unit, whatever the DIE's attributes say. Read in an already resolved unit.
    pub fn u_byte_size(&self, unit: &GimliCU<'_>) -> (r: Result<usize, Error>)
        ensures
            agrees(r, spec_size_of(unit_model(unit), Type::Pointer(*self))),
    {
        Type::Pointer(*self).u_byte_size(unit)
    }

    /// The size of a pointer: the address size of its unit, whatever the DIE's attributes say.
    pub fn byte_size<D: DwarfContext>(&self, dwarf: &D) -> (r: Result<usize, Error>)
        ensures
            agrees(r, spec_type_size(dwarf.model(), Type::Pointer(*self))),
    {
        Type::Pointer(*self).byte_size(dwarf)
    }
}

impl HasLocation for Subroutine {
    open spec fn spec_location(&self) -> DwarfUnit {
        self.location
    }

    fn location(&self) -> (location: DwarfUnit) {
        self.location
    }
}

impl Tagged for Subroutine {
    open spec fn spec_tag() -> u16 {
        DW_TAG_SUBROUTINE_TYPE
    }

    fn new(location: DwarfUnit) -> (handle: Self) {
        Self { location }
    }

    fn tag() -> (tag: u16) {
        DW_TAG_SUBROUTINE_TYPE
    }
}

impl UnitNamedType for Subroutine {}

impl NamedType for Subroutine {}

impl UnitInnerType for Subroutine {}

impl InnerType for Subroutine {}

impl HasLocation for Typedef {
    open spec fn spec_location(&self) -> DwarfUnit {
        self.location
    }

    fn location(&self) -> (location: DwarfUnit) {
        self.location
    }
}

impl Tagged for Typedef {
    open spec fn spec_tag() -> u16 {
        DW_TAG_TYPEDEF
    }

    fn new(location: DwarfUnit) -> (handle: Self) {
        Self { location }
    }

    fn tag() -> (tag: u16) {
        DW_TAG_TYPEDEF
    }
}

impl UnitNamedType for Typedef {}

impl NamedType for Typedef {}

impl UnitInnerType for Typedef {}

impl InnerType for Typedef {}

impl Typedef {
    /// The size of the typedef: its byte size attribute, or else the size of the type it names. Read in an already resolved unit.
    pub fn u_byte_size(&self, unit: &GimliCU<'_>) -> (r: Result<usize, Error>)
        ensures
            agrees(r, spec_size_of(unit_model(unit), Type::Typedef(*self))),
    {
        Type::Typedef(*self).u_byte_size(unit)
    }

    /// The size of the typedef: its byte size attribute, or else the size of the type it names.
    pub fn byte_size<D: DwarfContext>(&self, dwarf: &D) -> (r: Result<usize, Error>)
        ensures
            agrees(r, spec_type_size(dwarf.model(), Type::Typedef(*self))),
    {
        Type::Typedef(*self).byte_size(dwarf)
    }
}

impl HasLocation for Union {
    open spec fn spec_location(&self) -> DwarfUnit {
        self.location
    }

    fn location(&self) -> (location: DwarfUnit) {
        self.location
    }
}

impl Tagged for Union {
    open spec fn spec_tag() -> u16 {
        DW_TAG_UNION_TYPE
    }

    fn new(location: DwarfUnit) -> (handle: Self) {
        Self { location }
    }

    fn tag() -> (tag: u16) {
        DW_TAG_UNION_TYPE
    }
}

impl UnitNamedType for Union {}

impl NamedType for Union {}

impl UnitHasMembers for Union {}

impl HasMembers for Union {}

impl Union {
    /// The size of the union: its byte size attribute, or else the size of its largest member. Read in an already resolved unit.
    pub fn u_byte_size(&self, unit: &GimliCU<'_>) -> (r: Result<usize, Error>)
        ensures
            agrees(r, spec_size_of(unit_model(unit), Type::Union(*self))),
    {
        Type::Union(*self).u_byte_size(unit)
    }

    /// The size of the union: its byte size attribute, or else the size of its largest member.
    pub fn byte_size<D: DwarfContext>(&self, dwarf: &D) -> (r: Result<usize, Error>)
        ensures
            agrees(r, spec_type_size(dwarf.model(), Type::Union(*self))),
    {
        Type::Union(*self).byte_size(dwarf)
    }
}

impl HasLocation for Base {
    open spec fn spec_location(&self) -> DwarfUnit {
        self.location
    }

    fn location(&self) -> (location: DwarfUnit) {
        self.location
    }
}

impl Tagged for Base {
    open spec fn spec_tag() -> u16 {
        DW_TAG_BASE_TYPE
    }

    fn new(location: DwarfUnit) -> (handle: Self) {
        Self { location }
    }

    fn tag() -> (tag: u16) {
        DW_TAG_BASE_TYPE
    }
}

impl UnitNamedType for Base {}

impl NamedType for Base {}

impl Base {
    /// The size of the base type in bytes: its byte size attribute. Read in an already resolved unit.
    pub fn u_byte_size(&self, unit: &GimliCU<'_>) -> (r: Result<usize, Error>)
        ensures
            agrees(r, spec_size_of(unit_model(unit), Type::Base(*self))),
    {
        Type::Base(*self).u_byte_size(unit)
    }

    /// The size of the base type in bytes: its byte size attribute.
    pub fn byte_size<D: DwarfContext>(&self, dwarf: &D) -> (r: Result<usize, Error>)
        ensures
            agrees(r, spec_type_size(dwarf.model(), Type::Base(*self))),
    {
        Type::Base(*self).byte_size(dwarf)
    }
}

impl HasLocation for Const {
    open spec fn spec_location(&self) -> DwarfUnit {
        self.location
    }

    fn location(&self) -> (location: DwarfUnit) {
        self.location
    }
}

impl Tagged for Const {
    open spec fn spec_tag() -> u16 {
        DW_TAG_CONST_TYPE
    }

    fn new(location: DwarfUnit) -> (handle: Self) {
        Self { location }
    }

    fn tag() -> (tag: u16) {
        DW_TAG_CONST_TYPE
    }
}

impl UnitNamedType for Const {}

impl NamedType for Const {}

impl UnitInnerType for Const {}

impl InnerType for Const {}

impl Const {
    /// The size of the qualified type: its byte size attribute, or else the size of the type it qualifies. Read in an already resolved unit.
    pub fn u_byte_size(&self, unit: &GimliCU<'_>) -> (r: Result<usize, Error>)
        ensures
            agrees(r, spec_size_of(unit_model(unit), Type::Const(*self))),
    {
        Type::Const(*self).u_byte_size(unit)
    }

    /// The size of the qualified type: its byte size attribute, or else the size of the type it qualifies.
    pub fn byte_size<D: DwarfContext>(&self, dwarf: &D) -> (r: Result<usize, Error>)
        ensures
            agrees(r, spec_type_size(dwarf.model(), Type::Const(*self))),
    {
        Type::Const(*self).byte_size(dwarf)
    }
}

impl HasLocation for Volatile {
    open spec fn spec_location(&self) -> DwarfUnit {
        self.location
    }

    fn location(&self) -> (location: DwarfUnit) {
        self.location
    }
}

impl Tagged for Volatile {
    open spec fn spec_tag() -> u16 {
        DW_TAG_VOLATILE_TYPE
    }

    fn new(location: DwarfUnit) -> (handle: Self) {
        Self { location }
    }

    fn tag() -> (tag: u16) {
        DW_TAG_VOLATILE_TYPE
    }
}

impl UnitNamedType for Volatile {}

impl NamedType for Volatile {}

impl UnitInnerType for Volatile {}

impl InnerType for Volatile {}

impl Volatile {
    /// The size of the qualified type: its byte size attribute, or else the size of the type it qualifies. Read in an already resolved unit.
    pub fn u_byte_size(&self, unit: &GimliCU<'_>) -> (r: Result<usize, Error>)
        ensures
            agrees(r, spec_size_of(unit_model(unit), Type::Volatile(*self))),
    {
        Type::Volatile(*self).u_byte_size(unit)
    }

    /// The size of the qualified type: its byte size attribute, or else the size of the type it qualifies.
    pub fn byte_size<D: DwarfContext>(&self, dwarf: &D) -> (r: Result<usize, Error>)
        ensures
            agrees(r, spec_type_size(dwarf.model(), Type::Volatile(*self))),
    {
        Type::Volatile(*self).byte_size(dwarf)
    }
}

impl HasLocation for Restrict {
    open spec fn spec_location(&self) -> DwarfUnit {
        self.location
    }

    fn location(&self) -> (location: DwarfUnit) {
        self.location
    }
}

impl Tagged for Restrict {
    open spec fn spec_tag() -> u16 {
        DW_TAG_RESTRICT_TYPE
    }

    fn new(location: DwarfUnit) -> (handle: Self) {
        Self { location }
    }

    fn tag() -> (tag: u16) {
        DW_TAG_RESTRICT_TYPE
    }
}

impl UnitNamedType for Restrict {}

impl NamedType for Restrict {}

impl UnitInnerType for Restrict {}

impl InnerType for Restrict {}

impl Restrict {
    /// The size of the qualified type: its byte size attribute, or else the size of the type it qualifies. Read in an already resolved unit.
    pub fn u_byte_size(&self, unit: &GimliCU<'_>) -> (r: Result<usize, Error>)
        ensures
            agrees(r, spec_size_of(unit_model(unit), Type::Restrict(*self))),
    {
        Type::Restrict(*self).u_byte_size(unit)
    }

    /// The size of the qualified type: its byte size attribute, or else the size of the type it qualifies.
    pub fn byte_size<D: DwarfContext>(&self, dwarf: &D) -> (r: Result<usize, Error>)
        ensures
            agrees(r, spec_type_size(dwarf.model(), Type::Restrict(*self))),
    {
        Type::Restrict(*self).byte_size(dwarf)
    }
}

impl HasLocation for FormalParameter {
    open spec fn spec_location(&self) -> DwarfUnit {
        self.location
    }

    fn location(&self) -> (location: DwarfUnit) {
        self.location
    }
}

impl UnitInnerType for FormalParameter {}

impl InnerType for FormalParameter {}

impl HasLocation for Variable {
    open spec fn spec_location(&self) -> DwarfUnit {
        self.location
    }

    fn location(&self) -> (location: DwarfUnit) {
        self.location
    }
}

impl Tagged for Variable {
    open spec fn spec_tag() -> u16 {
        DW_TAG_VARIABLE
    }

    fn new(location: DwarfUnit) -> (handle: Self) {
        Self { location }
    }

    fn tag() -> (tag: u16) {
        DW_TAG_VARIABLE
    }
}

impl UnitNamedType for Variable {}

impl NamedType for Variable {}

impl UnitInnerType for Variable {}

impl InnerType for Variable {}

impl Variable {
    /// The size of the variable: that of its type. Read in an already resolved unit.
    pub fn u_byte_size(&self, unit: &GimliCU<'_>) -> (r: Result<usize, Error>)
        ensures
            agrees(r, spec_size_of(unit_model(unit), Type::Variable(*self))),
    {
        Type::Variable(*self).u_byte_size(unit)
    }

    /// The size of the variable: that of its type.
    pub fn byte_size<D: DwarfContext>(&self, dwarf: &D) -> (r: Result<usize, Error>)
        ensures
            agrees(r, spec_type_size(dwarf.model(), Type::Variable(*self))),
    {
        Type::Variable(*self).byte_size(dwarf)
    }
}

impl HasLocation for Member {
    open spec fn spec_location(&self) -> DwarfUnit {
        self.location
    }

    fn location(&self) -> (location: DwarfUnit) {
        self.location
    }
}

impl UnitNamedType for Member {}

impl NamedType for Member {}

impl UnitInnerType for Member {}

impl InnerType for Member {}

impl HasLocation for CompileUnit {
    open spec fn spec_location(&self) -> DwarfUnit {
        self.location
    }

    fn location(&self) -> (location: DwarfUnit) {
        self.location
    }
}

impl Tagged for CompileUnit {
    open spec fn spec_tag() -> u16 {
        DW_TAG_COMPILE_UNIT
    }

    fn new(location: DwarfUnit) -> (handle: Self) {
        Self { location }
    }

    fn tag() -> (tag: u16) {
        DW_TAG_COMPILE_UNIT
    }
}

impl UnitNamedType for CompileUnit {}

impl NamedType for CompileUnit {}

impl HasLocation for Subprogram {
    open spec fn spec_location(&self) -> DwarfUnit {
        self.location
    }

    fn location(&self) -> (location: DwarfUnit) {
        self.location
    }
}

impl Tagged for Subprogram {
    open spec fn spec_tag() -> u16 {
        DW_TAG_SUBPROGRAM
    }

    fn new(location: DwarfUnit) -> (handle: Self) {
        Self { location }
    }

    fn tag() -> (tag: u16) {
        DW_TAG_SUBPROGRAM
    }
}

impl UnitNamedType for Subprogram {}

impl NamedType for Subprogram {}

/// The size of the type of the DIE at `location` within `u`.
pub open spec fn spec_typed_size(u: UnitModel, location: DwarfUnit) -> Result<usize, ErrorKind> {
    match spec_get_type(u, location) {
        Ok(inner) => spec_size_of(u, inner),
        Err(e) => Err(e),
    }
}

/// The result of `f` in the unit that `location` names.
pub open spec fn spec_in_unit(
    m: DwarfModel,
    location: DwarfUnit,
    f: spec_fn(UnitModel) -> Result<usize, ErrorKind>,
) -> Result<usize, ErrorKind> {
    match spec_unit_context(m, location) {
        Ok(u) => f(u),
        Err(e) => Err(e),
    }
}

/// The bit size attribute of the member at `offset`.
pub open spec fn spec_bit_size(u: UnitModel, offset: usize) -> Result<usize, ErrorKind> {
    spec_const_attr(u, offset, DW_AT_BIT_SIZE, ErrorKind::BitSizeAttributeNotFound, true)
}

/// The byte offset of the member at `offset` from the start of its struct.
pub open spec fn spec_member_location(u: UnitModel, offset: usize) -> Result<usize, ErrorKind> {
    spec_const_attr(u, offset, DW_AT_DATA_MEMBER_LOCATION, ErrorKind::MemberLocationAttributeNotFound, true)
}

impl Member {
    /// The size of a member in bits, read in an already resolved unit. Only a
    /// bit-field has one.
    pub fn u_bit_size(&self, unit: &GimliCU<'_>) -> (r: Result<usize, Error>)
        ensures
            agrees(r, spec_bit_size(unit_model(unit), self.location.entry_offset)),
    {
        get_entry_const(
            unit,
            self.location.entry_offset,
            DW_AT_BIT_SIZE,
            ErrorKind::BitSizeAttributeNotFound,
            true,
        )
    }

    /// The size of a member in bits
    pub fn bit_size<D: DwarfContext>(&self, dwarf: &D) -> (r: Result<usize, Error>)
        ensures
            agrees(
                r,
                spec_in_unit(
                    dwarf.model(),
                    self.location,
                    |u: UnitModel| spec_bit_size(u, self.location.entry_offset),
                ),
            ),
    {
        match dwarf.unit_context(&self.location) {
            Ok(unit) => self.u_bit_size(&unit),
            Err(e) => Err(e),
        }
    }

    /// The size of the member's type in bytes, read in an already resolved
    /// unit.
    pub fn u_byte_size(&self, unit: &GimliCU<'_>) -> (r: Result<usize, Error>)
        ensures
            agrees(r, spec_typed_size(unit_model(unit), self.location)),
    {
        match self.u_get_type(unit) {
            Ok(inner) => inner.u_byte_size(unit),
            Err(e) => Err(e),
        }
    }

    /// The size of the member's type in bytes
    pub fn byte_size<D: DwarfContext>(&self, dwarf: &D) -> (r: Result<usize, Error>)
        ensures
            agrees(
                r,
                spec_in_unit(dwarf.model(), self.location, |u: UnitModel| spec_typed_size(u, self.location)),
            ),
    {
        match dwarf.unit_context(&self.location) {
            Ok(unit) => self.u_byte_size(&unit),
            Err(e) => Err(e),
        }
    }

    /// The byte offset of the member from the start of the datatype, read in
    /// an already resolved unit. An offset given as a DWARF expression or a
    /// location list is not implemented.
    pub fn u_member_location(&self, unit: &GimliCU<'_>) -> (r: Result<usize, Error>)
        ensures
            agrees(r, spec_member_location(unit_model(unit), self.location.entry_offset)),
    {
        get_entry_const(
            unit,
            self.location.entry_offset,
            DW_AT_DATA_MEMBER_LOCATION,
            ErrorKind::MemberLocationAttributeNotFound,
            true,
        )
    }

    /// The byte offset of the member from the start of the datatype
    pub fn member_location<D: DwarfContext>(&self, dwarf: &D) -> (r: Result<usize, Error>)
        ensures
            agrees(
                r,
                spec_in_unit(
                    dwarf.model(),
                    self.location,
                    |u: UnitModel| spec_member_location(u, self.location.entry_offset),
                ),
            ),
    {
        match dwarf.unit_context(&self.location) {
            Ok(unit) => self.u_member_location(&unit),
            Err(e) => Err(e),
        }
    }

    /// Alias for u_member_location
    pub fn u_offset(&self, unit: &GimliCU<'_>) -> (r: Result<usize, Error>)
        ensures
            agrees(r, spec_member_location(unit_model(unit), self.location.entry_offset)),
    {
        self.u_member_location(unit)
    }

    /// Alias for member_location
    pub fn offset<D: DwarfContext>(&self, dwarf: &D) -> (r: Result<usize, Error>)
        ensures
            agrees(
                r,
                spec_in_unit(
                    dwarf.model(),
                    self.location,
                    |u: UnitModel| spec_member_location(u, self.location.entry_offset),
                ),
            ),
    {
        self.member_location(dwarf)
    }
}

impl Struct {
    /// The alignment that the compiler recorded for the struct, read in an
    /// already resolved unit.
    pub fn u_alignment(&self, unit: &GimliCU<'_>) -> (r: Result<usize, Error>)
        ensures
            agrees(r, spec_entry_alignment(unit_model(unit), self.location.entry_offset)),
    {
        get_entry_alignment(unit, self.location.entry_offset)
    }

    /// The alignment that the compiler recorded for the struct.
    pub fn alignment<D: DwarfContext>(&self, dwarf: &D) -> (r: Result<usize, Error>)
        ensures
            agrees(
                r,
                spec_in_unit(
                    dwarf.model(),
                    self.location,
                    |u: UnitModel| spec_entry_alignment(u, self.location.entry_offset),
                ),
            ),
    {
        match dwarf.unit_context(&self.location) {
            Ok(unit) => self.u_alignment(&unit),
            Err(e) => Err(e),
        }
    }
}

impl Pointer {
    /// alias for get_type()
    pub fn deref<D: DwarfContext>(&self, dwarf: &D) -> (r: Result<Type, Error>)
        ensures
            agrees(r, spec_inner_type(dwarf.model(), self.location)),
    {
        self.get_type(dwarf)
    }
}

impl Array {
    /// The size of one array item, read in an already resolved unit.
    pub fn u_entry_size(&self, unit: &GimliCU<'_>) -> (r: Result<usize, Error>)
        ensures
            agrees(r, spec_typed_size(unit_model(unit), self.location)),
    {
        match self.u_get_type(unit) {
            Ok(inner) => inner.u_byte_size(unit),
            Err(e) => Err(e),
        }
    }

    /// The size of one array item
    pub fn entry_size<D: DwarfContext>(&self, dwarf: &D) -> (r: Result<usize, Error>)
        ensures
            agrees(
                r,
                spec_in_unit(dwarf.model(), self.location, |u: UnitModel| spec_typed_size(u, self.location)),
            ),
    {
        match dwarf.unit_context(&self.location) {
            Ok(unit) => self.u_entry_size(&unit),
            Err(e) => Err(e),
        }
    }
}

/// The source language of a compile unit, by its DWARF language code.
#[derive(Clone, Copy, Debug, PartialEq, Eq, Structural)]
#[allow(non_camel_case_types)]
pub enum Language {
    /// ISO C:1989
    C89,
    /// Non-standardized C, such as K&R
    C,
    /// ISO Ada:1983
    Ada83,
    /// ISO C++98
    C_plus_plus,
    /// ISO COBOL:1974
    Cobol74,
    /// ISO COBOL:1985
    Cobol85,
    /// ISO FORTRAN:1977
    Fortran77,
    /// ISO Fortran:1990
    Fortran90,
    /// ISO Pascal:1983
    Pascal83,
    /// ISO Modula-2:1996
    Modula2,
    /// Java
    Java,
    /// ISO C:1999
    C99,
    /// ISO Ada:1995
    Ada95,
    /// ISO Fortran:1995
    Fortran95,
    /// ANSI PL/I:1976
    PLI,
    /// Objective C
    ObjC,
    /// Objective C++
    ObjC_plus_plus,
    /// UPC (Unified Parallel C)
    UPC,
    /// D
    D,
    /// Python
    Python,
    /// OpenCL
    OpenCL,
    /// Go
    Go,
    /// Modula-3
    Modula3,
    /// Haskell
    Haskell,
    /// ISO C++03
    C_plus_plus_03,
    /// ISO C++11
    C_plus_plus_11,
    /// OCaml
    OCaml,
    /// Rust
    Rust,
    /// ISO C:2011
    C11,
    /// Swift
    Swift,
    /// Julia
    Julia,
    /// Dylan
    Dylan,
    /// ISO C++14
    C_plus_plus_14,
    /// ISO Fortran:2004
    Fortran03,
    /// ISO Fortran:2010
    Fortran08,
    /// RenderScript Kernel Language
    RenderScript,
    /// BLISS
    BLISS,
    /// Vendor Extension
    Vendor(u16),
}

impl Language {
    /// The DWARF code of the language.
    pub open spec fn code(self) -> u16 {
        match self {
            Language::C89 => 1,
            Language::C => 2,
            Language::Ada83 => 3,
            Language::C_plus_plus => 4,
            Language::Cobol74 => 5,
            Language::Cobol85 => 6,
            Language::Fortran77 => 7,
            Language::Fortran90 => 8,
            Language::Pascal83 => 9,
            Language::Modula2 => 10,
            Language::Java => 11,
            Language::C99 => 12,
            Language::Ada95 => 13,
            Language::Fortran95 => 14,
            Language::PLI => 15,
            Language::ObjC => 16,
            Language::ObjC_plus_plus => 17,
            Language::UPC => 18,
            Language::D => 19,
            Language::Python => 20,
            Language::OpenCL => 21,
            Language::Go => 22,
            Language::Modula3 => 23,
            Language::Haskell => 24,
            Language::C_plus_plus_03 => 25,
            Language::C_plus_plus_11 => 26,
            Language::OCaml => 27,
            Language::Rust => 28,
            Language::C11 => 29,
            Language::Swift => 30,
            Language::Julia => 31,
            Language::Dylan => 32,
            Language::C_plus_plus_14 => 33,
            Language::Fortran03 => 34,
            Language::Fortran08 => 35,
            Language::RenderScript => 36,
            Language::BLISS => 37,
            Language::Vendor(v) => v,
        }
    }

    /// The standard language with the DWARF code `v`: the codes from 1 to 37
    /// name one each.
    pub open spec fn from_code(v: u16) -> Option<Language> {
        if v == 1 {
            Some(Language::C89)
        } else if v == 2 {
            Some(Language::C)
        } else if v == 3 {
            Some(Language::Ada83)
        } else if v == 4 {
            Some(Language::C_plus_plus)
        } else if v == 5 {
            Some(Language::Cobol74)
        } else if v == 6 {
            Some(Language::Cobol85)
        } else if v == 7 {
            Some(Language::Fortran77)
        } else if v == 8 {
            Some(Language::Fortran90)
        } else if v == 9 {
            Some(Language::Pascal83)
        } else if v == 10 {
            Some(Language::Modula2)
        } else if v == 11 {
            Some(Language::Java)
        } else if v == 12 {
            Some(Language::C99)
        } else if v == 13 {
            Some(Language::Ada95)
        } else if v == 14 {
            Some(Language::Fortran95)
        } else if v == 15 {
            Some(Language::PLI)
        } else if v == 16 {
            Some(Language::ObjC)
        } else if v == 17 {
            Some(Language::ObjC_plus_plus)
        } else if v == 18 {
            Some(Language::UPC)
        } else if v == 19 {
            Some(Language::D)
        } else if v == 20 {
            Some(Language::Python)
        } else if v == 21 {
            Some(Language::OpenCL)
        } else if v == 22 {
            Some(Language::Go)
        } else if v == 23 {
            Some(Language::Modula3)
        } else if v == 24 {
            Some(Language::Haskell)
        } else if v == 25 {
            Some(Language::C_plus_plus_03)
        } else if v == 26 {
            Some(Language::C_plus_plus_11)
        } else if v == 27 {
            Some(Language::OCaml)
        } else if v == 28 {
            Some(Language::Rust)
        } else if v == 29 {
            Some(Language::C11)
        } else if v == 30 {
            Some(Language::Swift)
        } else if v == 31 {
            Some(Language::Julia)
        } else if v == 32 {
            Some(Language::Dylan)
        } else if v == 33 {
            Some(Language::C_plus_plus_14)
        } else if v == 34 {
            Some(Language::Fortran03)
        } else if v == 35 {
            Some(Language::Fortran08)
        } else if v == 36 {
            Some(Language::RenderScript)
        } else if v == 37 {
            Some(Language::BLISS)
        } else {
            None
        }
    }

    /// Each standard language has the code that names it.
    pub proof fn lemma_code_names_language(v: u16)
        ensures
            Language::from_code(v) is Some <==> 1 <= v <= 37,
            Language::from_code(v) matches Some(language) ==> language.code() == v && !(language is Vendor),
    {
    }
}

impl vstd::std_specs::convert::TryFromSpecImpl<u16> for Language {
    open spec fn obeys_try_from_spec() -> bool {
        true
    }

    open spec fn try_from_spec(v: u16) -> Result<Self, ()> {
        match Language::from_code(v) {
            Some(language) => Ok(language),
            None => Err(()),
        }
    }
}

impl TryFrom<u16> for Language {
    type Error = ();

    /// The standard language with the code `v`, or an error where no
    /// standard language has it.
    fn try_from(v: u16) -> (r: Result<Self, ()>) {
        match v {
            1 => Ok(Language::C89),
            2 => Ok(Language::C),
            3 => Ok(Language::Ada83),
            4 => Ok(Language::C_plus_plus),
            5 => Ok(Language::Cobol74),
            6 => Ok(Language::Cobol85),
            7 => Ok(Language::Fortran77),
            8 => Ok(Language::Fortran90),
            9 => Ok(Language::Pascal83),
            10 => Ok(Language::Modula2),
            11 => Ok(Language::Java),
            12 => Ok(Language::C99),
            13 => Ok(Language::Ada95),
            14 => Ok(Language::Fortran95),
            15 => Ok(Language::PLI),
            16 => Ok(Language::ObjC),
            17 => Ok(Language::ObjC_plus_plus),
            18 => Ok(Language::UPC),
            19 => Ok(Language::D),
            20 => Ok(Language::Python),
            21 => Ok(Language::OpenCL),
            22 => Ok(Language::Go),
            23 => Ok(Language::Modula3),
            24 => Ok(Language::Haskell),
            25 => Ok(Language::C_plus_plus_03),
            26 => Ok(Language::C_plus_plus_11),
            27 => Ok(Language::OCaml),
            28 => Ok(Language::Rust),
            29 => Ok(Language::C11),
            30 => Ok(Language::Swift),
            31 => Ok(Language::Julia),
            32 => Ok(Language::Dylan),
            33 => Ok(Language::C_plus_plus_14),
            34 => Ok(Language::Fortran03),
            35 => Ok(Language::Fortran08),
            36 => Ok(Language::RenderScript),
            37 => Ok(Language::BLISS),
            _ => Err(()),
        }
    }
}

impl View for Enumerator {
    type V = (Seq<char>, u64);

    open spec fn view(&self) -> (Seq<char>, u64) {
        (self.name@, self.value)
    }
}

/// The enumerators as plain values: for each its name and its value.
pub open spec fn enumerator_views(enumerators: Seq<Enumerator>) -> Seq<(Seq<char>, u64)> {
    Seq::new(enumerators.len(), |i: int| enumerators[i]@)
}

/// A signed constant as the unsigned number with the same bits: a negative
/// one counts from the top of the range down.
pub open spec fn spec_same_bits(value: i64) -> u64 {
    if value >= 0 {
        value as u64
    } else {
        (value + 0x1_0000_0000_0000_0000) as u64
    }
}

/// A signed constant as the unsigned number with the same bits.
pub fn same_bits(value: i64) -> (bits: u64)
    ensures
        bits == spec_same_bits(value),
{
    if value >= 0 {
        value as u64
    } else {
        let below: u64 = (-(value + 1)) as u64;
        u64::MAX - below
    }
}

/// The constant that an attribute bears: its value as an unsigned constant,
/// or else its value as a signed constant with the same bits; `None` where
/// it is no constant.
pub open spec fn spec_constant(attr: Attr) -> Option<u64> {
    match attr.udata {
        Some(value) => Some(value),
        None => match attr.sdata {
            Some(value) => Some(spec_same_bits(value)),
            None => None,
        },
    }
}

/// The value of the enumerator at `offset`: the constant that its value
/// attribute bears, negative or not.
pub open spec fn spec_const_enumerator(u: UnitModel, offset: usize) -> Option<u64> {
    match u.attr(offset, DW_AT_CONST_VALUE) {
        Some(AttrRead::Present(attr)) => spec_constant(attr),
        _ => None,
    }
}

/// The enumerators among the children of an enum: each child with the
/// enumerator tag gives its name and its value, in order. A negative value
/// is kept, as the unsigned number with the same bits. Only a child that
/// bears no constant at all is left out; the first whose name cannot be read
/// decides the error.
pub open spec fn enumerators_among(m: DwarfModel, u: UnitModel, children: Seq<DieHead>) -> Result<
    Seq<(Seq<char>, u64)>,
    ErrorKind,
>
    decreases children.len(),
{
    if children.len() == 0 {
        Ok(Seq::empty())
    } else {
        match enumerators_among(m, u, children.drop_last()) {
            Ok(rest) => {
                let last = children.last();
                if last.tag != DW_TAG_ENUMERATOR {
                    Ok(rest)
                } else {
                    match spec_entry_name(m, u, last.offset) {
                        Ok(name) => match spec_const_enumerator(u, last.offset) {
                            Some(value) => Ok(rest.push((name, value))),
                            None => Ok(rest),
                        },
                        Err(e) => Err(e),
                    }
                }
            },
            Err(e) => Err(e),
        }
    }
}

/// An error among the first `n` children is the error of them all.
proof fn lemma_enumerators_fail(m: DwarfModel, u: UnitModel, children: Seq<DieHead>, n: int)
    requires
        0 <= n <= children.len(),
        enumerators_among(m, u, children.take(n)) is Err,
    ensures
        enumerators_among(m, u, children) == enumerators_among(m, u, children.take(n)),
    decreases children.len() - n,
{
    if n < children.len() {
        assert(children.take(n + 1).drop_last() == children.take(n));
        lemma_enumerators_fail(m, u, children, n + 1);
    } else {
        assert(children.take(n) == children);
    }
}

/// The enumerators of the enum at `offset`.
pub open spec fn spec_enumerators(m: DwarfModel, u: UnitModel, offset: usize) -> Result<
    Seq<(Seq<char>, u64)>,
    ErrorKind,
> {
    match spec_children(u, offset) {
        Ok(children) => enumerators_among(m, u, children),
        Err(e) => Err(e),
    }
}

/// Whether a list of enumerators is the one that a contract names.
pub open spec fn agrees_enumerators(
    got: Result<Vec<Enumerator>, Error>,
    want: Result<Seq<(Seq<char>, u64)>, ErrorKind>,
) -> bool {
    match want {
        Ok(v) => got is Ok && enumerator_views(got->Ok_0@) == v,
        Err(k) => got is Err && got->Err_0@ == k,
    }
}

fn const_enumerator(unit: &GimliCU<'_>, offset: usize) -> (value: Option<u64>)
    ensures
        value == spec_const_enumerator(unit_model(unit), offset),
{
    match die_attr(unit, offset, DW_AT_CONST_VALUE) {
        Some(AttrRead::Present(attr)) => match attr.udata {
            Some(value) => Some(value),
            None => match attr.sdata {
                Some(value) => Some(same_bits(value)),
                None => None,
            },
        },
        _ => None,
    }
}

impl Enum {
    /// The enumerators of the enum with their values, read in an already
    /// resolved unit.
    pub fn u_enumerators<D: BorrowableDwarf>(&self, dwarf: &D, unit: &GimliCU<'_>) -> (r: Result<
        Vec<Enumerator>,
        Error,
    >)
        ensures
            agrees_enumerators(r, spec_enumerators(dwarf.model(), unit_model(unit), self.location.entry_offset)),
    {
        let children = match u_children(unit, self.location.entry_offset) {
            Ok(children) => children,
            Err(e) => {
                return Err(e);
            },
        };
        let ghost m = dwarf.model();
        let ghost u = unit_model(unit);
        let mut enumers: Vec<Enumerator> = Vec::new();
        let mut i: usize = 0;
        assert(enumerator_views(enumers@) == Seq::<(Seq<char>, u64)>::empty());
        while i < children.len()
            invariant
                i <= children.len(),
                m == dwarf.model(),
                u == unit_model(unit),
                spec_children(u, self.location.entry_offset) == Ok::<Seq<DieHead>, ErrorKind>(children@),
                enumerators_among(m, u, children@.take(i as int)) == Ok::<Seq<(Seq<char>, u64)>, ErrorKind>(
                    enumerator_views(enumers@),
                ),
            decreases children.len() - i,
        {
            let head = children[i];
            let ghost before = enumers@;
            assert(children@.take(i + 1).drop_last() == children@.take(i as int));
            if head.tag == DW_TAG_ENUMERATOR {
                match get_entry_name(dwarf, unit, head.offset) {
                    Ok(name) => match const_enumerator(unit, head.offset) {
                        Some(value) => {
                            let ghost text = name@;
                            enumers.push(Enumerator { name, value });
                            assert(enumerator_views(enumers@) == enumerator_views(before).push((text, value)));
                        },
                        None => {},
                    },
                    Err(e) => {
                        proof {
                            lemma_enumerators_fail(m, u, children@, i + 1);
                        }
                        return Err(e);
                    },
                }
            }
            i += 1;
        }
        assert(children@.take(i as int) == children@);
        Ok(enumers)
    }

    /// The enumerators of the enum with their values.
    pub fn enumerators<D: DwarfContext>(&self, dwarf: &D) -> (r: Result<Vec<Enumerator>, Error>)
        ensures
            agrees_enumerators(
                r,
                match spec_unit_context(dwarf.model(), self.location) {
                    Ok(u) => spec_enumerators(dwarf.model(), u, self.location.entry_offset),
                    Err(e) => Err(e),
                },
            ),
    {
        match dwarf.unit_context(&self.location) {
            Ok(unit) => self.u_enumerators(dwarf, &unit),
            Err(e) => Err(e),
        }
    }
}

/// The producer of the compile unit at `offset`: the compiler that wrote it.
pub open spec fn spec_producer(m: DwarfModel, u: UnitModel, offset: usize) -> Result<Seq<char>, ErrorKind> {
    spec_string_attr(m, u, offset, DW_AT_PRODUCER, ErrorKind::ProducerAttributeNotFound)
}

/// The source language of the compile unit at `offset`. A code from 0x8000
/// on is a vendor's; below that, a code that names no standard language is
/// invalid.
pub open spec fn spec_language(u: UnitModel, offset: usize) -> Result<Language, ErrorKind> {
    match u.attr(offset, DW_AT_LANGUAGE) {
        None => Err(ErrorKind::DIEError),
        Some(AttrRead::Failed) => Err(ErrorKind::InvalidAttributeError),
        Some(AttrRead::Absent) => Err(ErrorKind::LanguageAttributeNotFound),
        Some(AttrRead::Present(attr)) => match attr.form {
            AttrForm::Language(code) => if code >= 0x8000 {
                Ok(Language::Vendor(code))
            } else {
                match Language::from_code(code) {
                    Some(language) => Ok(language),
                    None => Err(ErrorKind::InvalidAttributeError),
                }
            },
            _ => Err(ErrorKind::InvalidAttributeError),
        },
    }
}

impl CompileUnit {
    /// The producer of the compile unit, read in an already resolved unit.
    pub fn u_producer<D: BorrowableDwarf>(&self, dwarf: &D, unit: &GimliCU<'_>) -> (r: Result<String, Error>)
        ensures
            agrees_text(r, spec_producer(dwarf.model(), unit_model(unit), self.location.entry_offset)),
    {
        get_entry_string(
            dwarf,
            unit,
            self.location.entry_offset,
            DW_AT_PRODUCER,
            ErrorKind::ProducerAttributeNotFound,
        )
    }

    /// The producer of the compile unit: the compiler that wrote it.
    pub fn producer<D: DwarfContext>(&self, dwarf: &D) -> (r: Result<String, Error>)
        ensures
            agrees_text(
                r,
                match spec_unit_context(dwarf.model(), self.location) {
                    Ok(u) => spec_producer(dwarf.model(), u, self.location.entry_offset),
                    Err(e) => Err(e),
                },
            ),
    {
        match dwarf.unit_context(&self.location) {
            Ok(unit) => self.u_producer(dwarf, &unit),
            Err(e) => Err(e),
        }
    }

    /// The source language of the compile unit, read in an already resolved
    /// unit.
    pub fn u_language(&self, unit: &GimliCU<'_>) -> (r: Result<Language, Error>)
        ensures
            agrees(r, spec_language(unit_model(unit), self.location.entry_offset)),
    {
        match die_attr(unit, self.location.entry_offset, DW_AT_LANGUAGE) {
            None => Err(Error::die_not_found(self.location.entry_offset)),
            Some(AttrRead::Failed) => Err(Error::InvalidAttributeError),
            Some(AttrRead::Absent) => Err(Error::LanguageAttributeNotFound),
            Some(AttrRead::Present(attr)) => match attr.form {
                AttrForm::Language(code) => if code >= 0x8000 {
                    Ok(Language::Vendor(code))
                } else {
                    match Language::try_from(code) {
                        Ok(language) => Ok(language),
                        Err(_) => Err(Error::InvalidAttributeError),
                    }
                },
                _ => Err(Error::InvalidAttributeError),
            },
        }
    }

    /// The source language of the compile unit.
    pub fn language<D: DwarfContext>(&self, dwarf: &D) -> (r: Result<Language, Error>)
        ensures
            agrees(
                r,
                match spec_unit_context(dwarf.model(), self.location) {
                    Ok(u) => spec_language(u, self.location.entry_offset),
                    Err(e) => Err(e),
                },
            ),
    {
        match dwarf.unit_context(&self.location) {
            Ok(unit) => self.u_language(&unit),
            Err(e) => Err(e),
        }
    }
}

} // verus!
