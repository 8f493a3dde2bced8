//! The mathematical model of DWARF data that the contracts speak of.
//!
//! A reader holds compile units; a compile unit holds DIEs; a DIE holds a tag
//! and attributes. The model records, for each of these, what the DWARF
//! decoder reports for it.
use vstd::prelude::*;

verus! {

pub const DW_TAG_ARRAY_TYPE: u16 = 0x01;
pub const DW_TAG_ENUMERATION_TYPE: u16 = 0x04;
pub const DW_TAG_FORMAL_PARAMETER: u16 = 0x05;
pub const DW_TAG_MEMBER: u16 = 0x0d;
pub const DW_TAG_POINTER_TYPE: u16 = 0x0f;
pub const DW_TAG_COMPILE_UNIT: u16 = 0x11;
pub const DW_TAG_STRUCTURE_TYPE: u16 = 0x13;
pub const DW_TAG_SUBROUTINE_TYPE: u16 = 0x15;
pub const DW_TAG_TYPEDEF: u16 = 0x16;
pub const DW_TAG_UNION_TYPE: u16 = 0x17;
pub const DW_TAG_SUBRANGE_TYPE: u16 = 0x21;
pub const DW_TAG_BASE_TYPE: u16 = 0x24;
pub const DW_TAG_CONST_TYPE: u16 = 0x26;
pub const DW_TAG_ENUMERATOR: u16 = 0x28;
pub const DW_TAG_SUBPROGRAM: u16 = 0x2e;
pub const DW_TAG_VARIABLE: u16 = 0x34;
pub const DW_TAG_VOLATILE_TYPE: u16 = 0x35;
pub const DW_TAG_RESTRICT_TYPE: u16 = 0x37;

pub const DW_AT_NAME: u16 = 0x03;
pub const DW_AT_BYTE_SIZE: u16 = 0x0b;
pub const DW_AT_BIT_SIZE: u16 = 0x0d;
pub const DW_AT_LANGUAGE: u16 = 0x13;
pub const DW_AT_CONST_VALUE: u16 = 0x1c;
pub const DW_AT_PRODUCER: u16 = 0x25;
pub const DW_AT_UPPER_BOUND: u16 = 0x2f;
pub const DW_AT_COUNT: u16 = 0x37;
pub const DW_AT_DATA_MEMBER_LOCATION: u16 = 0x38;
pub const DW_AT_DECLARATION: u16 = 0x3c;
pub const DW_AT_TYPE: u16 = 0x49;
pub const DW_AT_ALIGNMENT: u16 = 0x88;

/// The form of an attribute's value, as far as this library tells forms apart.
#[derive(Clone, Copy, Debug)]
pub enum AttrForm {
    /// A string stored inline in the DIE.
    String,
    /// An offset into `.debug_str`.
    DebugStrRef(usize),
    /// An offset into `.debug_line_str`.
    DebugLineStrRef(usize),
    /// A reference to another DIE of the same unit.
    UnitRef(usize),
    /// A DWARF expression.
    Exprloc,
    /// A reference to a location list.
    LocationListsRef,
    /// A source language code.
    Language(u16),
    /// A flag.
    Flag(bool),
    /// Any other form.
    Other,
}

/// One attribute of a DIE.
#[derive(Clone, Copy, Debug)]
pub struct Attr {
    /// The value as an unsigned constant, where the form is a constant that
    /// is not negative.
    pub udata: Option<u64>,
    /// The value as a signed constant, where the form is a constant that
    /// fits one.
    pub sdata: Option<i64>,
    /// The form of the value.
    pub form: AttrForm,
}

/// The outcome of looking an attribute up in a DIE.
#[derive(Clone, Copy, Debug)]
pub enum AttrRead {
    /// The DIE's attributes could not be decoded.
    Failed,
    /// The DIE has no such attribute.
    Absent,
    /// The first attribute of that name.
    Present(Attr),
}

/// The outcome of looking an attribute up in a DIE, as far as its form goes.
#[derive(Clone, Copy, Debug)]
pub enum FormRead {
    /// The DIE's attributes could not be decoded.
    Failed,
    /// The DIE has no such attribute.
    Absent,
    /// The form of the first attribute of that name.
    Present(AttrForm),
}

impl AttrRead {
    /// The outcome as far as the form of the attribute goes.
    pub open spec fn form_read(self) -> FormRead {
        match self {
            AttrRead::Failed => FormRead::Failed,
            AttrRead::Absent => FormRead::Absent,
            AttrRead::Present(attr) => FormRead::Present(attr.form),
        }
    }

    /// The value of the attribute as an unsigned constant, where it was
    /// found and is one.
    pub open spec fn udata(self) -> Option<u64> {
        match self {
            AttrRead::Present(attr) => attr.udata,
            _ => None,
        }
    }

    /// The value of the attribute as a signed constant, where it was found
    /// and is one.
    pub open spec fn sdata(self) -> Option<i64> {
        match self {
            AttrRead::Present(attr) => attr.sdata,
            _ => None,
        }
    }
}

/// A DIE as met on a walk through a unit.
#[derive(Clone, Copy, Debug)]
pub struct DieHead {
    /// The DIE's offset within its unit.
    pub offset: usize,
    /// The DIE's tag.
    pub tag: u16,
    /// How much deeper in the tree this DIE lies than the one met before it.
    pub delta_depth: isize,
}

/// What the decoder reports for the DIE at one offset.
pub struct DieModel {
    /// The DIE's tag.
    pub tag: u16,
    /// The outcome of each attribute lookup that does not report absence.
    pub attrs: Map<u16, AttrRead>,
    /// The text of each attribute stored inline as a valid UTF-8 string.
    pub inline_strings: Map<u16, Seq<char>>,
}

impl DieModel {
    /// The outcome of looking up the attribute `at`.
    pub open spec fn attr(self, at: u16) -> AttrRead {
        if self.attrs.contains_key(at) {
            self.attrs[at]
        } else {
            AttrRead::Absent
        }
    }
}

/// What the decoder reports for one compile unit.
pub struct UnitModel {
    /// The size of an address on the target, in bytes.
    pub address_size: u8,
    /// The length of the unit in `.debug_info`, its header included.
    pub size: usize,
    /// The unit's DIEs in depth-first order, up to the first that fails to
    /// decode.
    pub entries: Seq<DieHead>,
    /// The DIE at each offset at which one can be read.
    pub dies: Map<usize, DieModel>,
    /// For each offset from which a walk can start: the DIEs that follow the
    /// one at that offset in depth-first order, up to the first that fails to
    /// decode.
    pub walks: Map<usize, Seq<DieHead>>,
}

impl UnitModel {
    /// Whether a DIE can be read at `offset`.
    pub open spec fn has_die(self, offset: usize) -> bool {
        self.dies.contains_key(offset)
    }

    /// The tag of the DIE at `offset`, if there is one.
    pub open spec fn tag(self, offset: usize) -> Option<u16> {
        if self.has_die(offset) {
            Some(self.dies[offset].tag)
        } else {
            None
        }
    }

    /// The outcome of looking up the attribute `at` of the DIE at `offset`,
    /// if there is such a DIE.
    pub open spec fn attr(self, offset: usize, at: u16) -> Option<AttrRead> {
        if self.has_die(offset) {
            Some(self.dies[offset].attr(at))
        } else {
            None
        }
    }

    /// The inline string held by the attribute `at` of the DIE at `offset`.
    pub open spec fn inline_string(self, offset: usize, at: u16) -> Option<Seq<char>> {
        if self.has_die(offset) && self.dies[offset].inline_strings.contains_key(at) {
            Some(self.dies[offset].inline_strings[at])
        } else {
            None
        }
    }

    /// The walk that starts behind the DIE at `offset`, if one can start there.
    pub open spec fn walk(self, offset: usize) -> Option<Seq<DieHead>> {
        if self.walks.contains_key(offset) {
            Some(self.walks[offset])
        } else {
            None
        }
    }
}

/// What the decoder reports for a whole set of DWARF sections.
pub struct DwarfModel {
    /// The offsets of the unit headers of `.debug_info` in section order, up
    /// to the first header that fails to decode.
    pub headers: Seq<usize>,
    /// The unit at each header offset that resolves to one.
    pub units: Map<usize, UnitModel>,
    /// The string at each offset of `.debug_str` at which one can be read.
    pub strings: Map<usize, Seq<char>>,
    /// The string at each offset of `.debug_line_str` at which one can be read.
    pub line_strings: Map<usize, Seq<char>>,
}

impl DwarfModel {
    /// The unit whose header is at `offset`, if that offset resolves.
    pub open spec fn unit(self, offset: usize) -> Option<UnitModel> {
        if self.units.contains_key(offset) {
            Some(self.units[offset])
        } else {
            None
        }
    }

    /// The string at `offset` of `.debug_str`.
    pub open spec fn string(self, offset: usize) -> Option<Seq<char>> {
        if self.strings.contains_key(offset) {
            Some(self.strings[offset])
        } else {
            None
        }
    }

    /// The string at `offset` of `.debug_line_str`.
    pub open spec fn line_string(self, offset: usize) -> Option<Seq<char>> {
        if self.line_strings.contains_key(offset) {
            Some(self.line_strings[offset])
        } else {
            None
        }
    }
}

} // verus!
