//! Formatting methods for type information.
//!
//! A type is rendered as C source text. A struct is printed with its members
//! one per line; in verbose mode each member is followed by a comment with
//! its size and its offset, and the struct by its total size.
use vstd::prelude::*;
use vstd::string::*;
use crate::dwarf::{BorrowableDwarf, DwarfContext, DwarfUnit, GimliCU, spec_unit_context, unit_length, unit_model};
use crate::layout::spec_offset_in_struct;
use crate::model::{DwarfModel, UnitModel};
use crate::text::{decimal, ends_with, last_line_len, pad_left, push_indent, push_spaces};
use crate::text::{spaces, spec_decimal, spec_ends_with, spec_indent, spec_last_line_len, spec_pad_left};
use crate::types::{get_entry_name, spec_bit_size, spec_bound, spec_entry_alignment, spec_entry_name};
use crate::types::{spec_get_type, spec_members, spec_params, spec_size_of, spec_typed_size};
use crate::types::{Array, Enum, FormalParameter, Member, Struct, Subroutine, Type, Union};
use crate::types::{UnitHasMembers, UnitInnerType, UnitNamedType};
use crate::{agrees_text, Error, ErrorKind};

verus! {

/// The column that the size and offset comment of a member starts behind.
pub const COMMENT_COLUMN: usize = 48;

/// `text` as it stands where a member is declared, with the member's name
/// behind it, and bare where the type is nested in another.
pub open spec fn declared(text: Seq<char>, level: usize, member_name: Seq<char>) -> Seq<char> {
    if level == 0 {
        text + " "@ + member_name
    } else {
        text
    }
}

/// `member_name` where a member is declared, and nothing where the type is
/// nested in another.
pub open spec fn name_at(level: usize, member_name: Seq<char>) -> Seq<char> {
    if level == 0 {
        member_name
    } else {
        Seq::empty()
    }
}

/// The bound of an array in brackets; an array without items has none.
pub open spec fn spec_brackets(bound: usize) -> Seq<char> {
    if bound == 0 {
        "[]"@
    } else {
        "["@ + spec_decimal(bound as nat) + "]"@
    }
}

/// The C text of the type `typ`.
///
/// At `level` 0 the type stands where a member named `member_name` is
/// declared, and the name is part of the text; at any other level it is
/// nested in another type. `tablevel` is the nesting depth of the lines
/// around it, `base_offset` the offset at which an anonymous aggregate lies
/// in the outermost one. `fuel` bounds the nesting of types within types:
/// a type nested deeper than that is invalid. A type that names no other
/// needs none.
///
/// - A base type and a typedef give their name; so does an enum that has
///   one, and an enum without a name gives `enum`.
/// - A struct or union with a name gives `struct` or `union` and the name.
///   One without a name is written out: its members, one level deeper,
///   between braces, and behind them the member's name, if it has one.
/// - A pointer gives its target, or `void`, and a `*`. A pointer to a
///   subroutine type gives the return type, or `void`, the name in
///   parentheses behind a `*`, and the parameter types.
/// - An array gives its item type, the name, and its bound in brackets.
/// - A subroutine type gives its parameter types, separated by commas.
/// - `const` and `volatile` stand before the type they qualify, `restrict`
///   stands behind it. A `const` that qualifies nothing gives `const void`.
pub open spec fn spec_format_type(
    m: DwarfModel,
    u: UnitModel,
    member_name: Seq<char>,
    typ: Type,
    level: usize,
    tablevel: usize,
    verbosity: u8,
    base_offset: usize,
    fuel: nat,
) -> Result<Seq<char>, ErrorKind>
    decreases fuel, 3nat, 0nat,
{
    let location = typ.spec_location();
    match typ {
        Type::Array(_) => match spec_get_type(u, location) {
            Ok(inner) => match spec_format_nested(m, u, inner, tablevel, verbosity, base_offset, fuel) {
                Ok(item) => match spec_bound(u, location.entry_offset) {
                    Ok(bound) => Ok(
                        item + (if spec_ends_with(item, '*') {
                            Seq::empty()
                        } else {
                            " "@
                        }) + name_at(level, member_name) + spec_brackets(bound),
                    ),
                    Err(e) => Err(e),
                },
                Err(e) => Err(e),
            },
            Err(e) => Err(e),
        },
        Type::Typedef(_) => match spec_entry_name(m, u, location.entry_offset) {
            Ok(name) => Ok(declared(name, level, member_name)),
            Err(e) => Err(e),
        },
        Type::Base(_) => match spec_entry_name(m, u, location.entry_offset) {
            Ok(name) => Ok(declared(name, level, member_name)),
            Err(e) => Err(e),
        },
        Type::Enum(_) => match spec_entry_name(m, u, location.entry_offset) {
            Ok(name) => Ok(declared(name, level, member_name)),
            Err(ErrorKind::NameAttributeNotFound) => Ok(declared("enum"@, level, member_name)),
            Err(e) => Err(e),
        },
        Type::Struct(_) => spec_format_aggregate(
            m,
            u,
            "struct"@,
            member_name,
            location,
            level,
            tablevel,
            verbosity,
            base_offset,
            fuel,
        ),
        Type::Union(_) => spec_format_aggregate(
            m,
            u,
            "union"@,
            member_name,
            location,
            level,
            tablevel,
            verbosity,
            base_offset,
            fuel,
        ),
        Type::Subroutine(_) => match spec_params(u, location) {
            Ok(params) => spec_format_params(m, u, params, tablevel, verbosity, base_offset, fuel),
            Err(e) => Err(e),
        },
        Type::Pointer(_) => match spec_get_type(u, location) {
            Ok(Type::Subroutine(target)) => match spec_format_return(
                m,
                u,
                target,
                tablevel,
                verbosity,
                base_offset,
                fuel,
            ) {
                Ok(result_type) => match spec_format_nested(m, u, Type::Subroutine(target), tablevel, verbosity, base_offset, fuel) {
                    Ok(arguments) => Ok(result_type + " (*"@ + member_name + ")("@ + arguments + ")"@),
                    Err(e) => Err(e),
                },
                Err(e) => Err(e),
            },
            Ok(inner) => match spec_format_nested(m, u, inner, tablevel, verbosity, base_offset, fuel) {
                Ok(target) => Ok(spec_pointer_to(target, level, member_name)),
                Err(e) => Err(e),
            },
            Err(ErrorKind::TypeAttributeNotFound) => Ok(spec_pointer_to("void"@, level, member_name)),
            Err(e) => Err(e),
        },
        Type::Const(_) => match spec_get_type(u, location) {
            Ok(inner) => match spec_format_nested(m, u, inner, tablevel, verbosity, base_offset, fuel) {
                Ok(text) => Ok("const "@ + text),
                Err(e) => Err(e),
            },
            Err(ErrorKind::TypeAttributeNotFound) => Ok("const void"@),
            Err(e) => Err(e),
        },
        Type::Volatile(_) => match spec_get_type(u, location) {
            Ok(inner) => match spec_format_nested(m, u, inner, tablevel, verbosity, base_offset, fuel) {
                Ok(text) => Ok("volatile "@ + text),
                Err(e) => Err(e),
            },
            Err(e) => Err(e),
        },
        Type::Restrict(_) => match spec_get_type(u, location) {
            Ok(inner) => match spec_format_nested(m, u, inner, tablevel, verbosity, base_offset, fuel) {
                Ok(text) => Ok(text + " restrict"@),
                Err(e) => Err(e),
            },
            Err(e) => Err(e),
        },
        Type::Variable(_) => Err(ErrorKind::UnimplementedError),
    }
}

/// The text of `typ` where it is nested in another type, one level further
/// down.
pub open spec fn spec_format_nested(
    m: DwarfModel,
    u: UnitModel,
    typ: Type,
    tablevel: usize,
    verbosity: u8,
    base_offset: usize,
    fuel: nat,
) -> Result<Seq<char>, ErrorKind>
    decreases fuel, 0nat, 0nat,
{
    if fuel == 0 {
        Err(ErrorKind::InvalidAttributeError)
    } else {
        spec_format_type(m, u, Seq::empty(), typ, 1, tablevel, verbosity, base_offset, (fuel - 1) as nat)
    }
}

/// The text of a base type, a typedef or an enum does not depend on how
/// deep types may nest: such a type names no other.
pub proof fn lemma_named_type_needs_no_nesting(
    m: DwarfModel,
    u: UnitModel,
    member_name: Seq<char>,
    typ: Type,
    level: usize,
    tablevel: usize,
    verbosity: u8,
    base_offset: usize,
    fuel: nat,
)
    requires
        typ is Base || typ is Typedef || typ is Enum,
    ensures
        spec_format_type(m, u, member_name, typ, level, tablevel, verbosity, base_offset, fuel)
            == spec_format_type(m, u, member_name, typ, level, tablevel, verbosity, base_offset, 0),
{
}

/// A pointer to `target`: a `*` behind it, set off by a space unless the
/// target is a pointer itself, and then the member's name.
pub open spec fn spec_pointer_to(target: Seq<char>, level: usize, member_name: Seq<char>) -> Seq<char> {
    target + (if spec_ends_with(target, '*') {
        "*"@
    } else {
        " *"@
    }) + name_at(level, member_name)
}

/// The return type of the subroutine type `target`, and `void` where it has
/// none.
pub open spec fn spec_format_return(
    m: DwarfModel,
    u: UnitModel,
    target: Subroutine,
    tablevel: usize,
    verbosity: u8,
    base_offset: usize,
    fuel: nat,
) -> Result<Seq<char>, ErrorKind>
    decreases fuel, 1nat, 0nat,
{
    match spec_get_type(u, target.location) {
        Ok(returned) => spec_format_nested(m, u, returned, tablevel, verbosity, base_offset, fuel),
        Err(ErrorKind::TypeAttributeNotFound) => Ok("void"@),
        Err(e) => Err(e),
    }
}

/// The text of the struct or union at `location`, where `keyword` says
/// which of the two it is.
pub open spec fn spec_format_aggregate(
    m: DwarfModel,
    u: UnitModel,
    keyword: Seq<char>,
    member_name: Seq<char>,
    location: DwarfUnit,
    level: usize,
    tablevel: usize,
    verbosity: u8,
    base_offset: usize,
    fuel: nat,
) -> Result<Seq<char>, ErrorKind>
    decreases fuel, 2nat, 0nat,
{
    match spec_entry_name(m, u, location.entry_offset) {
        Ok(name) => Ok(declared(keyword + " "@ + name, level, member_name)),
        Err(ErrorKind::NameAttributeNotFound) => if tablevel == usize::MAX || fuel == 0 {
            Err(ErrorKind::InvalidAttributeError)
        } else {
            match spec_members(u, location) {
                Ok(members) => match spec_format_members(
                    m,
                    u,
                    members,
                    (tablevel + 1) as usize,
                    verbosity,
                    base_offset,
                    (fuel - 1) as nat,
                ) {
                    Ok(lines) => Ok(
                        keyword + " {\n"@ + lines + spec_indent(tablevel as nat) + "}"@ + (if level == 0
                            && member_name.len() > 0 {
                            " "@ + member_name
                        } else {
                            Seq::empty()
                        }),
                    ),
                    Err(e) => Err(e),
                },
                Err(e) => Err(e),
            }
        },
        Err(e) => Err(e),
    }
}

/// The types of `params`, separated by commas.
pub open spec fn spec_format_params(
    m: DwarfModel,
    u: UnitModel,
    params: Seq<FormalParameter>,
    tablevel: usize,
    verbosity: u8,
    base_offset: usize,
    fuel: nat,
) -> Result<Seq<char>, ErrorKind>
    decreases fuel, 1nat, params.len(),
{
    if params.len() == 0 {
        Ok(Seq::empty())
    } else {
        match spec_format_params(m, u, params.drop_last(), tablevel, verbosity, base_offset, fuel) {
            Ok(before) => match spec_get_type(u, params.last().location) {
                Ok(param) => match spec_format_nested(m, u, param, tablevel, verbosity, base_offset, fuel) {
                    Ok(text) => Ok(
                        if params.len() == 1 {
                            text
                        } else {
                            before + ", "@ + text
                        },
                    ),
                    Err(e) => Err(e),
                },
                Err(e) => Err(e),
            },
            Err(e) => Err(e),
        }
    }
}

/// The lines of `members`, one behind the other.
pub open spec fn spec_format_members(
    m: DwarfModel,
    u: UnitModel,
    members: Seq<Member>,
    tablevel: usize,
    verbosity: u8,
    base_offset: usize,
    fuel: nat,
) -> Result<Seq<char>, ErrorKind>
    decreases fuel, 5nat, members.len(),
{
    if members.len() == 0 {
        Ok(Seq::empty())
    } else {
        match spec_format_members(m, u, members.drop_last(), tablevel, verbosity, base_offset, fuel) {
            Ok(before) => match spec_format_member(
                m,
                u,
                members.last(),
                tablevel,
                verbosity,
                base_offset,
                fuel,
            ) {
                Ok(line) => Ok(before + line),
                Err(e) => Err(e),
            },
            Err(e) => Err(e),
        }
    }
}

/// The name of the member at `offset`, and no text where it has none.
pub open spec fn spec_member_name(m: DwarfModel, u: UnitModel, offset: usize) -> Result<Seq<char>, ErrorKind> {
    match spec_entry_name(m, u, offset) {
        Ok(name) => Ok(name),
        Err(ErrorKind::NameAttributeNotFound) => Ok(Seq::empty()),
        Err(e) => Err(e),
    }
}

/// The bit-field notation of the member at `offset`: a colon and its bit
/// size, and no text where it is no bit-field.
pub open spec fn spec_bit_field(u: UnitModel, offset: usize) -> Result<Seq<char>, ErrorKind> {
    match spec_bit_size(u, offset) {
        Ok(bits) => Ok(":"@ + spec_decimal(bits as nat)),
        Err(ErrorKind::BitSizeAttributeNotFound) => Ok(Seq::empty()),
        Err(e) => Err(e),
    }
}

/// The comment behind a member in verbose mode: behind the line `line`,
/// filled up to the comment column, the member's size and its offset.
pub open spec fn spec_layout_comment(line: Seq<char>, size: usize, offset: usize) -> Seq<char> {
    spaces(
        if spec_last_line_len(line) < COMMENT_COLUMN {
            (COMMENT_COLUMN - spec_last_line_len(line)) as nat
        } else {
            0
        },
    ) + "\t/* sz: "@ + spec_pad_left(spec_decimal(size as nat), 4) + " | off: "@ + spec_pad_left(
        spec_decimal(offset as nat),
        4,
    ) + " */"@
}

/// The line of the member `member`: its indentation, its type with its
/// name, its bit size if it is a bit-field, and a semicolon; in verbose mode
/// also the comment with its size and its offset. The offset is counted from
/// `base_offset`; a member without a location lies at 0.
pub open spec fn spec_format_member(
    m: DwarfModel,
    u: UnitModel,
    member: Member,
    tablevel: usize,
    verbosity: u8,
    base_offset: usize,
    fuel: nat,
) -> Result<Seq<char>, ErrorKind>
    decreases fuel, 4nat, 0nat,
{
    let at = member.location.entry_offset;
    match spec_get_type(u, member.location) {
        Ok(mtype) => match spec_member_name(m, u, at) {
            Ok(name) => match spec_offset_in_struct(u, at) {
                Ok(memb_offset) => if base_offset + memb_offset > usize::MAX {
                    Err(ErrorKind::InvalidAttributeError)
                } else {
                    let offset = (base_offset + memb_offset) as usize;
                    match spec_format_type(m, u, name, mtype, 0, tablevel, verbosity, offset, fuel) {
                        Ok(text) => match spec_bit_field(u, at) {
                            Ok(bits) => {
                                let line = spec_indent(tablevel as nat) + text + bits + ";"@;
                                if verbosity == 0 {
                                    Ok(line + "\n"@)
                                } else {
                                    match spec_typed_size(u, member.location) {
                                        Ok(size) => Ok(line + spec_layout_comment(line, size, offset) + "\n"@),
                                        Err(e) => Err(e),
                                    }
                                }
                            },
                            Err(e) => Err(e),
                        },
                        Err(e) => Err(e),
                    }
                },
                Err(e) => Err(e),
            },
            Err(e) => Err(e),
        },
        Err(e) => Err(e),
    }
}

fn declare(text: String, level: usize, member_name: &str) -> (r: String)
    ensures
        r@ == declared(text@, level, member_name@),
{
    let mut out = text;
    if level == 0 {
        out.append(" ");
        out.append(member_name);
    }
    out
}

fn push_name_at(out: &mut String, level: usize, member_name: &str)
    ensures
        final(out)@ == old(out)@ + name_at(level, member_name@),
{
    if level == 0 {
        out.append(member_name);
    } else {
        assert(out@ + Seq::<char>::empty() =~= out@);
    }
}

fn push_brackets(out: &mut String, bound: usize)
    ensures
        final(out)@ == old(out)@ + spec_brackets(bound),
{
    if bound == 0 {
        out.append("[]");
    } else {
        let ghost start = out@;
        let digits = decimal(bound);
        out.append("[");
        out.append(digits.as_str());
        out.append("]");
        assert(out@ =~= start + ("["@ + spec_decimal(bound as nat) + "]"@));
    }
}

fn pointer_to(target: String, level: usize, member_name: &str) -> (r: String)
    ensures
        r@ == spec_pointer_to(target@, level, member_name@),
{
    let mut out = target;
    if ends_with(out.as_str(), '*') {
        out.append("*");
    } else {
        out.append(" *");
    }
    push_name_at(&mut out, level, member_name);
    out
}

fn nothing() -> (r: &'static str)
    ensures
        r@ == Seq::<char>::empty(),
{
    proof {
        reveal_strlit("");
    }
    let r = "";
    assert(r@ =~= Seq::<char>::empty());
    r
}

fn format_nested<D: BorrowableDwarf>(
    dwarf: &D,
    unit: &GimliCU<'_>,
    typ: Type,
    tablevel: usize,
    verbosity: u8,
    base_offset: usize,
    fuel: usize,
) -> (r: Result<String, Error>)
    ensures
        agrees_text(
            r,
            spec_format_nested(dwarf.model(), unit_model(unit), typ, tablevel, verbosity, base_offset, fuel as nat),
        ),
    decreases fuel, 0nat, 0nat,
{
    if fuel == 0 {
        Err(Error::InvalidAttributeError)
    } else {
        format_type_within(dwarf, unit, nothing(), typ, 1, tablevel, verbosity, base_offset, fuel - 1)
    }
}

fn format_return<D: BorrowableDwarf>(
    dwarf: &D,
    unit: &GimliCU<'_>,
    target: Subroutine,
    tablevel: usize,
    verbosity: u8,
    base_offset: usize,
    fuel: usize,
) -> (r: Result<String, Error>)
    ensures
        agrees_text(
            r,
            spec_format_return(
                dwarf.model(),
                unit_model(unit),
                target,
                tablevel,
                verbosity,
                base_offset,
                fuel as nat,
            ),
        ),
    decreases fuel, 1nat, 0nat,
{
    match target.u_get_type(unit) {
        Ok(returned) => format_nested(dwarf, unit, returned, tablevel, verbosity, base_offset, fuel),
        Err(Error::TypeAttributeNotFound) => Ok(String::from_str("void")),
        Err(e) => Err(e),
    }
}

/// Formats `typ` as C text, following at most `fuel` levels of types nested
/// in types. A type that names no other needs none.
pub fn format_type_within<D: BorrowableDwarf>(
    dwarf: &D,
    unit: &GimliCU<'_>,
    member_name: &str,
    typ: Type,
    level: usize,
    tablevel: usize,
    verbosity: u8,
    base_offset: usize,
    fuel: usize,
) -> (r: Result<String, Error>)
    ensures
        agrees_text(
            r,
            spec_format_type(
                dwarf.model(),
                unit_model(unit),
                member_name@,
                typ,
                level,
                tablevel,
                verbosity,
                base_offset,
                fuel as nat,
            ),
        ),
    decreases fuel, 3nat, 0nat,
{
    let location = typ.location();
    match typ {
        Type::Array(array) => {
            let inner = match array.u_get_type(unit) {
                Ok(inner) => inner,
                Err(e) => {
                    return Err(e);
                },
            };
            let mut out = match format_nested(dwarf, unit, inner, tablevel, verbosity, base_offset, fuel) {
                Ok(item) => item,
                Err(e) => {
                    return Err(e);
                },
            };
            let bound = match array.u_get_bound(unit) {
                Ok(bound) => bound,
                Err(e) => {
                    return Err(e);
                },
            };
            if !ends_with(out.as_str(), '*') {
                out.append(" ");
            } else {
                assert(out@ + Seq::<char>::empty() =~= out@);
            }
            push_name_at(&mut out, level, member_name);
            push_brackets(&mut out, bound);
            Ok(out)
        },
        Type::Typedef(t) => match t.u_name(dwarf, unit) {
            Ok(name) => Ok(declare(name, level, member_name)),
            Err(e) => Err(e),
        },
        Type::Base(t) => match t.u_name(dwarf, unit) {
            Ok(name) => Ok(declare(name, level, member_name)),
            Err(e) => Err(e),
        },
        Type::Enum(t) => match t.u_name(dwarf, unit) {
            Ok(name) => Ok(declare(name, level, member_name)),
            Err(Error::NameAttributeNotFound) => Ok(declare(String::from_str("enum"), level, member_name)),
            Err(e) => Err(e),
        },
        Type::Struct(_) => format_aggregate(
            dwarf,
            unit,
            "struct",
            member_name,
            location,
            level,
            tablevel,
            verbosity,
            base_offset,
            fuel,
        ),
        Type::Union(_) => format_aggregate(
            dwarf,
            unit,
            "union",
            member_name,
            location,
            level,
            tablevel,
            verbosity,
            base_offset,
            fuel,
        ),
        Type::Subroutine(t) => match t.u_get_params(unit) {
            Ok(params) => format_params(dwarf, unit, &params, tablevel, verbosity, base_offset, fuel),
            Err(e) => Err(e),
        },
        Type::Pointer(p) => match p.u_get_type(unit) {
            Ok(Type::Subroutine(target)) => {
                let mut out = match format_return(dwarf, unit, target, tablevel, verbosity, base_offset, fuel) {
                    Ok(result_type) => result_type,
                    Err(e) => {
                        return Err(e);
                    },
                };
                let arguments = match format_nested(
                    dwarf,
                    unit,
                    Type::Subroutine(target),
                    tablevel,
                    verbosity,
                    base_offset,
                    fuel,
                ) {
                    Ok(arguments) => arguments,
                    Err(e) => {
                        return Err(e);
                    },
                };
                out.append(" (*");
                out.append(member_name);
                out.append(")(");
                out.append(arguments.as_str());
                out.append(")");
                Ok(out)
            },
            Ok(inner) => match format_nested(dwarf, unit, inner, tablevel, verbosity, base_offset, fuel) {
                Ok(target) => Ok(pointer_to(target, level, member_name)),
                Err(e) => Err(e),
            },
            Err(Error::TypeAttributeNotFound) => Ok(pointer_to(String::from_str("void"), level, member_name)),
            Err(e) => Err(e),
        },
        Type::Const(c) => match c.u_get_type(unit) {
            Ok(inner) => match format_nested(dwarf, unit, inner, tablevel, verbosity, base_offset, fuel) {
                Ok(text) => {
                    let mut out = String::from_str("const ");
                    out.append(text.as_str());
                    Ok(out)
                },
                Err(e) => Err(e),
            },
            Err(Error::TypeAttributeNotFound) => Ok(String::from_str("const void")),
            Err(e) => Err(e),
        },
        Type::Volatile(c) => match c.u_get_type(unit) {
            Ok(inner) => match format_nested(dwarf, unit, inner, tablevel, verbosity, base_offset, fuel) {
                Ok(text) => {
                    let mut out = String::from_str("volatile ");
                    out.append(text.as_str());
                    Ok(out)
                },
                Err(e) => Err(e),
            },
            Err(e) => Err(e),
        },
        Type::Restrict(c) => match c.u_get_type(unit) {
            Ok(inner) => match format_nested(dwarf, unit, inner, tablevel, verbosity, base_offset, fuel) {
                Ok(text) => {
                    let mut out = text;
                    out.append(" restrict");
                    Ok(out)
                },
                Err(e) => Err(e),
            },
            Err(e) => Err(e),
        },
        Type::Variable(_) => Err(Error::UnimplementedError("format_type, variable".to_string())),
    }
}

fn format_aggregate<D: BorrowableDwarf>(
    dwarf: &D,
    unit: &GimliCU<'_>,
    keyword: &str,
    member_name: &str,
    location: DwarfUnit,
    level: usize,
    tablevel: usize,
    verbosity: u8,
    base_offset: usize,
    fuel: usize,
) -> (r: Result<String, Error>)
    ensures
        agrees_text(
            r,
            spec_format_aggregate(
                dwarf.model(),
                unit_model(unit),
                keyword@,
                member_name@,
                location,
                level,
                tablevel,
                verbosity,
                base_offset,
                fuel as nat,
            ),
        ),
    decreases fuel, 2nat, 0nat,
{
    match get_entry_name(dwarf, unit, location.entry_offset) {
        Ok(name) => {
            let mut out = String::from_str(keyword);
            out.append(" ");
            out.append(name.as_str());
            Ok(declare(out, level, member_name))
        },
        Err(Error::NameAttributeNotFound) => {
            if tablevel == usize::MAX || fuel == 0 {
                return Err(Error::InvalidAttributeError);
            }
            let members = match crate::types::u_members_at(unit, location) {
                Ok(members) => members,
                Err(e) => {
                    return Err(e);
                },
            };
            let lines = match format_members(dwarf, unit, &members, tablevel + 1, verbosity, base_offset, fuel - 1) {
                Ok(lines) => lines,
                Err(e) => {
                    return Err(e);
                },
            };
            let mut out = String::from_str(keyword);
            out.append(" {\n");
            out.append(lines.as_str());
            push_indent(&mut out, tablevel);
            out.append("}");
            let ghost body = out@;
            if level == 0 && member_name.unicode_len() > 0 {
                out.append(" ");
                out.append(member_name);
                assert(out@ =~= body + (" "@ + member_name@));
            } else {
                assert(out@ =~= body + Seq::<char>::empty());
            }
            Ok(out)
        },
        Err(e) => Err(e),
    }
}

proof fn lemma_params_fail(
    m: DwarfModel,
    u: UnitModel,
    params: Seq<FormalParameter>,
    tablevel: usize,
    verbosity: u8,
    base_offset: usize,
    fuel: nat,
    n: int,
)
    requires
        0 <= n <= params.len(),
        spec_format_params(m, u, params.take(n), tablevel, verbosity, base_offset, fuel) is Err,
    ensures
        spec_format_params(m, u, params, tablevel, verbosity, base_offset, fuel) == spec_format_params(
            m,
            u,
            params.take(n),
            tablevel,
            verbosity,
            base_offset,
            fuel,
        ),
    decreases params.len() - n,
{
    if n < params.len() {
        assert(params.take(n + 1).drop_last() == params.take(n));
        lemma_params_fail(m, u, params, tablevel, verbosity, base_offset, fuel, n + 1);
    } else {
        assert(params.take(n) == params);
    }
}

proof fn lemma_members_fail(
    m: DwarfModel,
    u: UnitModel,
    members: Seq<Member>,
    tablevel: usize,
    verbosity: u8,
    base_offset: usize,
    fuel: nat,
    n: int,
)
    requires
        0 <= n <= members.len(),
        spec_format_members(m, u, members.take(n), tablevel, verbosity, base_offset, fuel) is Err,
    ensures
        spec_format_members(m, u, members, tablevel, verbosity, base_offset, fuel) == spec_format_members(
            m,
            u,
            members.take(n),
            tablevel,
            verbosity,
            base_offset,
            fuel,
        ),
    decreases members.len() - n,
{
    if n < members.len() {
        assert(members.take(n + 1).drop_last() == members.take(n));
        lemma_members_fail(m, u, members, tablevel, verbosity, base_offset, fuel, n + 1);
    } else {
        assert(members.take(n) == members);
    }
}

fn format_params<D: BorrowableDwarf>(
    dwarf: &D,
    unit: &GimliCU<'_>,
    params: &Vec<FormalParameter>,
    tablevel: usize,
    verbosity: u8,
    base_offset: usize,
    fuel: usize,
) -> (r: Result<String, Error>)
    ensures
        agrees_text(
            r,
            spec_format_params(
                dwarf.model(),
                unit_model(unit),
                params@,
                tablevel,
                verbosity,
                base_offset,
                fuel as nat,
            ),
        ),
    decreases fuel, 1nat, params.len() + 1,
{
    let ghost m = dwarf.model();
    let ghost u = unit_model(unit);
    let mut out = String::new();
    let mut i: usize = 0;
    while i < params.len()
        invariant
            i <= params.len(),
            m == dwarf.model(),
            u == unit_model(unit),
            spec_format_params(m, u, params@.take(i as int), tablevel, verbosity, base_offset, fuel as nat)
                == Ok::<Seq<char>, ErrorKind>(out@),
        decreases params.len() - i,
    {
        assert(params@.take(i + 1).drop_last() == params@.take(i as int));
        let text = match params[i].u_get_type(unit) {
            Ok(param) => format_nested(dwarf, unit, param, tablevel, verbosity, base_offset, fuel),
            Err(e) => Err(e),
        };
        match text {
            Ok(text) => {
                if i == 0 {
                    assert(out@ + text@ =~= text@);
                } else {
                    out.append(", ");
                }
                out.append(text.as_str());
            },
            Err(e) => {
                proof {
                    lemma_params_fail(m, u, params@, tablevel, verbosity, base_offset, fuel as nat, i + 1);
                }
                return Err(e);
            },
        }
        i += 1;
    }
    assert(params@.take(i as int) == params@);
    Ok(out)
}

fn format_members<D: BorrowableDwarf>(
    dwarf: &D,
    unit: &GimliCU<'_>,
    members: &Vec<Member>,
    tablevel: usize,
    verbosity: u8,
    base_offset: usize,
    fuel: usize,
) -> (r: Result<String, Error>)
    ensures
        agrees_text(
            r,
            spec_format_members(
                dwarf.model(),
                unit_model(unit),
                members@,
                tablevel,
                verbosity,
                base_offset,
                fuel as nat,
            ),
        ),
    decreases fuel, 5nat, members.len() + 1,
{
    let ghost m = dwarf.model();
    let ghost u = unit_model(unit);
    let mut out = String::new();
    let mut i: usize = 0;
    while i < members.len()
        invariant
            i <= members.len(),
            m == dwarf.model(),
            u == unit_model(unit),
            spec_format_members(m, u, members@.take(i as int), tablevel, verbosity, base_offset, fuel as nat)
                == Ok::<Seq<char>, ErrorKind>(out@),
        decreases members.len() - i,
    {
        assert(members@.take(i + 1).drop_last() == members@.take(i as int));
        match format_member_within(dwarf, unit, members[i], tablevel, verbosity, base_offset, fuel) {
            Ok(line) => {
                out.append(line.as_str());
            },
            Err(e) => {
                proof {
                    lemma_members_fail(m, u, members@, tablevel, verbosity, base_offset, fuel as nat, i + 1);
                }
                return Err(e);
            },
        }
        i += 1;
    }
    assert(members@.take(i as int) == members@);
    Ok(out)
}

fn member_name_or_nothing<D: BorrowableDwarf>(dwarf: &D, unit: &GimliCU<'_>, member: Member) -> (r: Result<
    String,
    Error,
>)
    ensures
        agrees_text(r, spec_member_name(dwarf.model(), unit_model(unit), member.location.entry_offset)),
{
    match member.u_name(dwarf, unit) {
        Ok(name) => Ok(name),
        Err(Error::NameAttributeNotFound) => Ok(String::new()),
        Err(e) => Err(e),
    }
}

fn bit_field(unit: &GimliCU<'_>, member: Member) -> (r: Result<String, Error>)
    ensures
        agrees_text(r, spec_bit_field(unit_model(unit), member.location.entry_offset)),
{
    match member.u_bit_size(unit) {
        Ok(bits) => {
            let mut out = String::from_str(":");
            out.append(decimal(bits).as_str());
            Ok(out)
        },
        Err(Error::BitSizeAttributeNotFound) => Ok(String::new()),
        Err(e) => Err(e),
    }
}

fn push_layout_comment(out: &mut String, size: usize, offset: usize)
    ensures
        final(out)@ == old(out)@ + spec_layout_comment(old(out)@, size, offset),
{
    let ghost line = out@;
    let len = last_line_len(out.as_str());
    let fill = if len < COMMENT_COLUMN {
        COMMENT_COLUMN - len
    } else {
        0
    };
    push_spaces(out, fill);
    out.append("\t/* sz: ");
    out.append(pad_left(decimal(size).as_str(), 4).as_str());
    out.append(" | off: ");
    out.append(pad_left(decimal(offset).as_str(), 4).as_str());
    out.append(" */");
    assert(out@ =~= line + spec_layout_comment(line, size, offset));
}

/// Formats the line of `member`, following at most `fuel` levels of types
/// nested in types.
pub fn format_member_within<D: BorrowableDwarf>(
    dwarf: &D,
    unit: &GimliCU<'_>,
    member: Member,
    tablevel: usize,
    verbosity: u8,
    base_offset: usize,
    fuel: usize,
) -> (r: Result<String, Error>)
    ensures
        agrees_text(
            r,
            spec_format_member(
                dwarf.model(),
                unit_model(unit),
                member,
                tablevel,
                verbosity,
                base_offset,
                fuel as nat,
            ),
        ),
    decreases fuel, 4nat, 0nat,
{
    let mtype = match member.u_get_type(unit) {
        Ok(mtype) => mtype,
        Err(e) => {
            return Err(e);
        },
    };
    let name = match member_name_or_nothing(dwarf, unit, member) {
        Ok(name) => name,
        Err(e) => {
            return Err(e);
        },
    };
    let memb_offset = match member.u_offset_in_struct(unit) {
        Ok(memb_offset) => memb_offset,
        Err(e) => {
            return Err(e);
        },
    };
    let offset = match base_offset.checked_add(memb_offset) {
        Some(offset) => offset,
        None => {
            return Err(Error::InvalidAttributeError);
        },
    };
    let text = match format_type_within(dwarf, unit, name.as_str(), mtype, 0, tablevel, verbosity, offset, fuel) {
        Ok(text) => text,
        Err(e) => {
            return Err(e);
        },
    };
    let bits = match bit_field(unit, member) {
        Ok(bits) => bits,
        Err(e) => {
            return Err(e);
        },
    };
    let mut formatted = String::new();
    push_indent(&mut formatted, tablevel);
    formatted.append(text.as_str());
    formatted.append(bits.as_str());
    formatted.append(";");
    assert(formatted@ =~= spec_indent(tablevel as nat) + text@ + bits@ + ";"@);
    if verbosity > 0 {
        let size = match member.u_byte_size(unit) {
            Ok(size) => size,
            Err(e) => {
                return Err(e);
            },
        };
        push_layout_comment(&mut formatted, size, offset);
    }
    formatted.append("\n");
    Ok(formatted)
}

/// Formats the type `typ` as C text. See [`spec_format_type`] for the text.
pub fn format_type<D: BorrowableDwarf>(
    dwarf: &D,
    unit: &GimliCU<'_>,
    member_name: &str,
    typ: Type,
    level: usize,
    tablevel: usize,
    verbosity: u8,
    base_offset: usize,
) -> (r: Result<String, Error>)
    ensures
        agrees_text(
            r,
            spec_format_type(
                dwarf.model(),
                unit_model(unit),
                member_name@,
                typ,
                level,
                tablevel,
                verbosity,
                base_offset,
                unit_model(unit).size as nat,
            ),
        ),
{
    format_type_within(dwarf, unit, member_name, typ, level, tablevel, verbosity, base_offset, unit_length(unit))
}

/// Formats the line of the member `member`. See [`spec_format_member`] for
/// the text.
pub fn format_member<D: BorrowableDwarf>(
    dwarf: &D,
    unit: &GimliCU<'_>,
    member: Member,
    tablevel: usize,
    verbosity: u8,
    base_offset: usize,
) -> (r: Result<String, Error>)
    ensures
        agrees_text(
            r,
            spec_format_member(
                dwarf.model(),
                unit_model(unit),
                member,
                tablevel,
                verbosity,
                base_offset,
                unit_model(unit).size as nat,
            ),
        ),
{
    format_member_within(dwarf, unit, member, tablevel, verbosity, base_offset, unit_length(unit))
}

/// The opening line of an aggregate: the keyword, the name if there is one,
/// and a brace.
pub open spec fn spec_opening(m: DwarfModel, u: UnitModel, keyword: Seq<char>, offset: usize) -> Result<
    Seq<char>,
    ErrorKind,
> {
    match spec_entry_name(m, u, offset) {
        Ok(name) => Ok(keyword + " "@ + name + " {\n"@),
        Err(ErrorKind::NameAttributeNotFound) => Ok(keyword + " {\n"@),
        Err(e) => Err(e),
    }
}

/// The comment with the total size of a struct, in verbose mode.
pub open spec fn spec_total_size(u: UnitModel, s: Struct, verbosity: u8) -> Result<Seq<char>, ErrorKind> {
    if verbosity == 0 {
        Ok(Seq::empty())
    } else {
        match spec_size_of(u, Type::Struct(s)) {
            Ok(size) => Ok("\n    /* total size: "@ + spec_decimal(size as nat) + " */\n"@),
            Err(e) => Err(e),
        }
    }
}

/// The alignment attribute of a struct as the compiler takes it, and no text
/// where the struct bears none.
pub open spec fn spec_aligned(u: UnitModel, offset: usize) -> Result<Seq<char>, ErrorKind> {
    match spec_entry_alignment(u, offset) {
        Ok(alignment) => Ok(" __attribute((__aligned__("@ + spec_decimal(alignment as nat) + ")))"@),
        Err(ErrorKind::AlignmentAttributeNotFound) => Ok(Seq::empty()),
        Err(e) => Err(e),
    }
}

/// The declaration of the struct `s`: the opening line, the members, in
/// verbose mode the total size, the closing brace, the alignment attribute if
/// the struct bears one, and a semicolon.
pub open spec fn spec_struct_text(m: DwarfModel, u: UnitModel, s: Struct, verbosity: u8) -> Result<
    Seq<char>,
    ErrorKind,
> {
    match spec_opening(m, u, "struct"@, s.location.entry_offset) {
        Ok(opening) => match spec_members(u, s.location) {
            Ok(members) => match spec_format_members(m, u, members, 0, verbosity, 0, u.size as nat) {
                Ok(lines) => match spec_total_size(u, s, verbosity) {
                    Ok(total) => match spec_aligned(u, s.location.entry_offset) {
                        Ok(aligned) => Ok(opening + lines + total + "}"@ + aligned + ";"@),
                        Err(e) => Err(e),
                    },
                    Err(e) => Err(e),
                },
                Err(e) => Err(e),
            },
            Err(e) => Err(e),
        },
        Err(e) => Err(e),
    }
}

/// The declaration of the union `s`: the opening line, the members, the
/// closing brace and a semicolon.
pub open spec fn spec_union_text(m: DwarfModel, u: UnitModel, s: Union, verbosity: u8) -> Result<
    Seq<char>,
    ErrorKind,
> {
    match spec_opening(m, u, "union"@, s.location.entry_offset) {
        Ok(opening) => match spec_members(u, s.location) {
            Ok(members) => match spec_format_members(m, u, members, 0, verbosity, 0, u.size as nat) {
                Ok(lines) => Ok(opening + lines + "};"@),
                Err(e) => Err(e),
            },
            Err(e) => Err(e),
        },
        Err(e) => Err(e),
    }
}

/// The declaration of the enum `s`: its type as it stands where a member
/// without a name is declared, and a semicolon.
pub open spec fn spec_enum_text(m: DwarfModel, u: UnitModel, s: Enum, verbosity: u8) -> Result<
    Seq<char>,
    ErrorKind,
> {
    match spec_format_type(m, u, Seq::empty(), Type::Enum(s), 0, 0, verbosity, 0, u.size as nat) {
        Ok(text) => Ok(text + ";"@),
        Err(e) => Err(e),
    }
}

/// The text that `f` gives in the unit that `location` names.
pub open spec fn spec_text_in_unit(
    m: DwarfModel,
    location: DwarfUnit,
    f: spec_fn(UnitModel) -> Result<Seq<char>, ErrorKind>,
) -> Result<Seq<char>, ErrorKind> {
    match spec_unit_context(m, location) {
        Ok(u) => f(u),
        Err(e) => Err(e),
    }
}

fn opening<D: BorrowableDwarf>(dwarf: &D, unit: &GimliCU<'_>, keyword: &str, offset: usize) -> (r: Result<
    String,
    Error,
>)
    ensures
        agrees_text(r, spec_opening(dwarf.model(), unit_model(unit), keyword@, offset)),
{
    let mut out = String::from_str(keyword);
    match get_entry_name(dwarf, unit, offset) {
        Ok(name) => {
            out.append(" ");
            out.append(name.as_str());
        },
        Err(Error::NameAttributeNotFound) => {},
        Err(e) => {
            return Err(e);
        },
    }
    out.append(" {\n");
    Ok(out)
}

fn total_size(unit: &GimliCU<'_>, s: Struct, verbosity: u8) -> (r: Result<String, Error>)
    ensures
        agrees_text(r, spec_total_size(unit_model(unit), s, verbosity)),
{
    if verbosity == 0 {
        return Ok(String::new());
    }
    match s.u_byte_size(unit) {
        Ok(size) => {
            let mut out = String::from_str("\n    /* total size: ");
            out.append(decimal(size).as_str());
            out.append(" */\n");
            Ok(out)
        },
        Err(e) => Err(e),
    }
}

fn aligned(unit: &GimliCU<'_>, s: Struct) -> (r: Result<String, Error>)
    ensures
        agrees_text(r, spec_aligned(unit_model(unit), s.location.entry_offset)),
{
    match s.u_alignment(unit) {
        Ok(alignment) => {
            let mut out = String::from_str(" __attribute((__aligned__(");
            out.append(decimal(alignment).as_str());
            out.append(")))");
            Ok(out)
        },
        Err(Error::AlignmentAttributeNotFound) => Ok(String::new()),
        Err(e) => Err(e),
    }
}

impl Struct {
    /// The declaration of the struct as C text, read in an already resolved
    /// unit. With a `verbosity` above 0 each member is followed by its size
    /// and offset, and the members by the total size.
    pub fn u_to_string_verbose<D: BorrowableDwarf>(&self, dwarf: &D, unit: &GimliCU<'_>, verbosity: u8) -> (r:
        Result<String, Error>)
        ensures
            agrees_text(r, spec_struct_text(dwarf.model(), unit_model(unit), *self, verbosity)),
    {
        let mut repr = match opening(dwarf, unit, "struct", self.location.entry_offset) {
            Ok(repr) => repr,
            Err(e) => {
                return Err(e);
            },
        };
        let members = match self.u_members(unit) {
            Ok(members) => members,
            Err(e) => {
                return Err(e);
            },
        };
        match format_members(dwarf, unit, &members, 0, verbosity, 0, unit_length(unit)) {
            Ok(lines) => {
                repr.append(lines.as_str());
            },
            Err(e) => {
                return Err(e);
            },
        }
        match total_size(unit, *self, verbosity) {
            Ok(total) => {
                repr.append(total.as_str());
            },
            Err(e) => {
                return Err(e);
            },
        }
        repr.append("}");
        match aligned(unit, *self) {
            Ok(attribute) => {
                repr.append(attribute.as_str());
            },
            Err(e) => {
                return Err(e);
            },
        }
        repr.append(";");
        Ok(repr)
    }

    /// The declaration of the struct as C text. With a `verbosity` above 0
    /// each member is followed by its size and offset, and the members by the
    /// total size.
    pub fn to_string_verbose<D: DwarfContext>(&self, dwarf: &D, verbosity: u8) -> (r: Result<String, Error>)
        ensures
            agrees_text(
                r,
                spec_text_in_unit(
                    dwarf.model(),
                    self.location,
                    |u: UnitModel| spec_struct_text(dwarf.model(), u, *self, verbosity),
                ),
            ),
    {
        match dwarf.unit_context(&self.location) {
            Ok(unit) => self.u_to_string_verbose(dwarf, &unit, verbosity),
            Err(e) => Err(e),
        }
    }

    /// The declaration of the struct as C text.
    pub fn to_string<D: DwarfContext>(&self, dwarf: &D) -> (r: Result<String, Error>)
        ensures
            agrees_text(
                r,
                spec_text_in_unit(
                    dwarf.model(),
                    self.location,
                    |u: UnitModel| spec_struct_text(dwarf.model(), u, *self, 0),
                ),
            ),
    {
        self.to_string_verbose(dwarf, 0)
    }
}

impl Union {
    /// The declaration of the union as C text, read in an already resolved
    /// unit.
    pub fn u_to_string_verbose<D: BorrowableDwarf>(&self, dwarf: &D, unit: &GimliCU<'_>, verbosity: u8) -> (r:
        Result<String, Error>)
        ensures
            agrees_text(r, spec_union_text(dwarf.model(), unit_model(unit), *self, verbosity)),
    {
        let mut repr = match opening(dwarf, unit, "union", self.location.entry_offset) {
            Ok(repr) => repr,
            Err(e) => {
                return Err(e);
            },
        };
        let members = match self.u_members(unit) {
            Ok(members) => members,
            Err(e) => {
                return Err(e);
            },
        };
        match format_members(dwarf, unit, &members, 0, verbosity, 0, unit_length(unit)) {
            Ok(lines) => {
                repr.append(lines.as_str());
            },
            Err(e) => {
                return Err(e);
            },
        }
        repr.append("};");
        Ok(repr)
    }

    /// The declaration of the union as C text. With a `verbosity` above 0
    /// each member is followed by its size and offset.
    pub fn to_string_verbose<D: DwarfContext>(&self, dwarf: &D, verbosity: u8) -> (r: Result<String, Error>)
        ensures
            agrees_text(
                r,
                spec_text_in_unit(
                    dwarf.model(),
                    self.location,
                    |u: UnitModel| spec_union_text(dwarf.model(), u, *self, verbosity),
                ),
            ),
    {
        match dwarf.unit_context(&self.location) {
            Ok(unit) => self.u_to_string_verbose(dwarf, &unit, verbosity),
            Err(e) => Err(e),
        }
    }

    /// The declaration of the union as C text.
    pub fn to_string<D: DwarfContext>(&self, dwarf: &D) -> (r: Result<String, Error>)
        ensures
            agrees_text(
                r,
                spec_text_in_unit(
                    dwarf.model(),
                    self.location,
                    |u: UnitModel| spec_union_text(dwarf.model(), u, *self, 0),
                ),
            ),
    {
        self.to_string_verbose(dwarf, 0)
    }
}

impl Enum {
    /// The declaration of the enum as C text.
    pub fn to_string_verbose<D: DwarfContext>(&self, dwarf: &D, verbosity: u8) -> (r: Result<String, Error>)
        ensures
            agrees_text(
                r,
                spec_text_in_unit(
                    dwarf.model(),
                    self.location,
                    |u: UnitModel| spec_enum_text(dwarf.model(), u, *self, verbosity),
                ),
            ),
    {
        match dwarf.unit_context(&self.location) {
            Ok(unit) => match format_type(dwarf, &unit, nothing(), Type::Enum(*self), 0, 0, verbosity, 0) {
                Ok(text) => {
                    let mut repr = text;
                    repr.append(";");
                    Ok(repr)
                },
                Err(e) => Err(e),
            },
            Err(e) => Err(e),
        }
    }

    /// The declaration of the enum as C text.
    pub fn to_string<D: DwarfContext>(&self, dwarf: &D) -> (r: Result<String, Error>)
        ensures
            agrees_text(
                r,
                spec_text_in_unit(
                    dwarf.model(),
                    self.location,
                    |u: UnitModel| spec_enum_text(dwarf.model(), u, *self, 0),
                ),
            ),
    {
        self.to_string_verbose(dwarf, 0)
    }
}

} // verus!
