//! Loading of DWARF information, and access to it by position.
//!
//! The DWARF data is decoded by `gimli`, and the object file around it by
//! `object`. Their types are opaque to the verifier: each is held in a
//! struct of this module, and what it holds is given a name, a function
//! from the struct to the model of [`crate::model`]. The functions of this
//! module that call into the two crates state over those names what the
//! call gives. Their contracts are the assumptions that the proofs of this
//! library rest on; everything else is proved from them.
use vstd::prelude::*;
use object::{Object, ObjectSection};
use gimli::{AttributeValue, DwAt, UnitOffset};
use crate::model::{Attr, AttrForm, AttrRead, DieHead, DieModel, DwarfModel, FormRead, UnitModel};
use crate::Error;
use crate::ErrorKind;

verus! {

/// DWARF sections borrowed from the bytes of an object file.
///
/// The sections are kept as the decoder loaded them; what they hold is
/// [`Dwarf::model`].
#[verifier::external_body]
pub struct Dwarf<'a> {
    dwarf_cow: gimli::Dwarf<std::borrow::Cow<'a, [u8]>>,
    endianness: gimli::RunTimeEndian,
}

/// DWARF sections copied to the heap, for callers that cannot keep the
/// object file's bytes alive.
#[verifier::external_body]
pub struct OwnedDwarf {
    dwarf_vec: gimli::Dwarf<Vec<u8>>,
    endianness: gimli::RunTimeEndian,
}

/// A view of the sections of a reader that the decoder can parse.
#[verifier::external_body]
pub struct GimliDwarf<'a> {
    dwarf: gimli::Dwarf<gimli::EndianSlice<'a, gimli::RunTimeEndian>>,
}

/// A resolved compile unit: its header and its abbreviation table.
#[verifier::external_body]
pub struct GimliCU<'a> {
    unit: gimli::Unit<gimli::EndianSlice<'a, gimli::RunTimeEndian>, usize>,
}

/// One DIE of a resolved compile unit.
#[verifier::external_body]
pub struct GimliDIE<'u, 'a> {
    entry: gimli::DebuggingInformationEntry<'u, 'u, gimli::EndianSlice<'a, gimli::RunTimeEndian>, usize>,
}

/// The unit headers of `.debug_info` that are still to come.
#[verifier::external_body]
pub struct UnitHeaders<'a> {
    headers: gimli::DebugInfoUnitHeadersIter<gimli::EndianSlice<'a, gimli::RunTimeEndian>>,
}

/// A walk through the DIEs of a unit in depth-first order.
#[verifier::external_body]
pub struct Entries<'u, 'a> {
    cursor: gimli::EntriesCursor<'u, 'u, gimli::EndianSlice<'a, gimli::RunTimeEndian>>,
}

/// What the borrowed sections of a [`Dwarf`] hold.
pub uninterp spec fn borrowed_sections(dwarf: &Dwarf<'_>) -> DwarfModel;

/// What the owned sections of an [`OwnedDwarf`] hold.
pub uninterp spec fn owned_sections(dwarf: &OwnedDwarf) -> DwarfModel;

/// What the sections seen through a [`GimliDwarf`] hold.
pub uninterp spec fn dwarf_model(dwarf: &GimliDwarf<'_>) -> DwarfModel;

/// What a resolved unit holds.
pub uninterp spec fn unit_model(unit: &GimliCU<'_>) -> UnitModel;

/// What a DIE holds.
pub uninterp spec fn die_model(die: &GimliDIE<'_, '_>) -> DieModel;

/// The header offsets that a [`UnitHeaders`] will still hand out.
pub uninterp spec fn headers_left(headers: &UnitHeaders<'_>) -> Seq<usize>;

/// The DIEs that an [`Entries`] walk will still hand out.
pub uninterp spec fn entries_left(entries: &Entries<'_, '_>) -> Seq<DieHead>;

/// `gimli::Dwarf::borrow` over borrowed sections: the view holds what the
/// sections hold.
#[verifier::external_body]
pub(crate) fn borrow_cow<'s>(dwarf: &'s Dwarf<'_>) -> (view: GimliDwarf<'s>)
    ensures
        dwarf_model(&view) == borrowed_sections(dwarf),
{
    let endianness = dwarf.endianness;
    GimliDwarf { dwarf: dwarf.dwarf_cow.borrow(|section| gimli::EndianSlice::new(section, endianness)) }
}

/// `gimli::Dwarf::borrow` over owned sections: the view holds what the
/// sections hold.
#[verifier::external_body]
pub(crate) fn borrow_vec<'s>(dwarf: &'s OwnedDwarf) -> (view: GimliDwarf<'s>)
    ensures
        dwarf_model(&view) == owned_sections(dwarf),
{
    let endianness = dwarf.endianness;
    GimliDwarf { dwarf: dwarf.dwarf_vec.borrow(|section| gimli::EndianSlice::new(section, endianness)) }
}

/// `gimli::DebugInfo::header_from_offset`, then `gimli::Unit::new`: the unit
/// whose header stands at `offset`, or the decoder's message where either
/// call fails.
#[verifier::external_body]
pub(crate) fn resolve_unit<'a>(dwarf: &GimliDwarf<'a>, offset: usize) -> (unit: Result<GimliCU<'a>, String>)
    ensures
        match unit {
            Ok(u) => dwarf_model(dwarf).unit(offset) == Some(unit_model(&u)),
            Err(_) => dwarf_model(dwarf).unit(offset) is None,
        },
{
    let at = gimli::DebugInfoOffset(offset);
    let header = dwarf.dwarf.debug_info.header_from_offset(at).map_err(|e| e.to_string())?;
    gimli::Unit::new(&dwarf.dwarf, header).map(|unit| GimliCU { unit }).map_err(|e| e.to_string())
}

/// `gimli::DebugInfo::units`: the headers of the section, from its start.
#[verifier::external_body]
pub(crate) fn unit_headers<'a>(dwarf: &GimliDwarf<'a>) -> (headers: UnitHeaders<'a>)
    ensures
        headers_left(&headers) == dwarf_model(dwarf).headers,
{
    UnitHeaders { headers: dwarf.dwarf.debug_info.units() }
}

/// `gimli::DebugInfoUnitHeadersIter::next`, then `gimli::UnitHeader::offset`
/// and `as_debug_info_offset`: the offset of the next header, which every
/// header of `.debug_info` has; `None` when the headers have run out or the
/// next one fails to decode.
#[verifier::external_body]
pub(crate) fn next_header(headers: &mut UnitHeaders<'_>) -> (next: Option<usize>)
    ensures
        match next {
            Some(offset) => headers_left(&*old(headers)).len() > 0
                && offset == headers_left(&*old(headers))[0]
                && headers_left(&*final(headers)) == headers_left(&*old(headers)).skip(1),
            None => headers_left(&*old(headers)).len() == 0
                && headers_left(&*final(headers)).len() == 0,
        },
{
    let header = headers.headers.next().ok()??;
    header.offset().as_debug_info_offset().map(|offset| offset.0)
}

/// `gimli::DebugStr::get_str`: the string at `offset` of `.debug_str`, with
/// invalid UTF-8 replaced, or `None` where no string can be read there.
#[verifier::external_body]
pub(crate) fn debug_str(dwarf: &GimliDwarf<'_>, offset: usize) -> (text: Option<String>)
    ensures
        match text {
            Some(s) => dwarf_model(dwarf).string(offset) == Some(s@),
            None => dwarf_model(dwarf).string(offset) is None,
        },
{
    let slice = dwarf.dwarf.debug_str.get_str(gimli::DebugStrOffset(offset)).ok()?;
    Some(slice.to_string_lossy().to_string())
}

/// `gimli::DebugLineStr::get_str`: the string at `offset` of
/// `.debug_line_str`, with invalid UTF-8 replaced, or `None` where no string
/// can be read there.
#[verifier::external_body]
pub(crate) fn debug_line_str(dwarf: &GimliDwarf<'_>, offset: usize) -> (text: Option<String>)
    ensures
        match text {
            Some(s) => dwarf_model(dwarf).line_string(offset) == Some(s@),
            None => dwarf_model(dwarf).line_string(offset) is None,
        },
{
    let slice = dwarf.dwarf.debug_line_str.get_str(gimli::DebugLineStrOffset(offset)).ok()?;
    Some(slice.to_string_lossy().to_string())
}

/// `gimli::UnitHeader::encoding`: the unit's address size.
#[verifier::external_body]
pub(crate) fn unit_address_size(unit: &GimliCU<'_>) -> (size: u8)
    ensures
        size == unit_model(unit).address_size,
{
    unit.unit.header.encoding().address_size
}

/// `gimli::UnitHeader::length_including_self`: the unit's length in bytes,
/// the bytes of its length field among them, so that it is above 0.
#[verifier::external_body]
pub(crate) fn unit_length(unit: &GimliCU<'_>) -> (size: usize)
    ensures
        size == unit_model(unit).size,
        size > 0,
{
    unit.unit.header.length_including_self()
}

/// `gimli::Unit::entry`: the DIE at `offset`, or `None` where no DIE can be
/// read there.
#[verifier::external_body]
fn unit_entry<'u, 'a>(unit: &'u GimliCU<'a>, offset: usize) -> (entry: Option<GimliDIE<'u, 'a>>)
    ensures
        match entry {
            Some(die) => unit_model(unit).has_die(offset) && unit_model(unit).dies[offset] == die_model(&die),
            None => !unit_model(unit).has_die(offset),
        },
{
    unit.unit.entry(UnitOffset(offset)).ok().map(|entry| GimliDIE { entry })
}

/// `gimli::DebuggingInformationEntry::tag`: the DIE's tag.
#[verifier::external_body]
fn entry_tag(die: &GimliDIE<'_, '_>) -> (tag: u16)
    ensures
        tag == die_model(die).tag,
{
    die.entry.tag().0
}

/// `gimli::DebuggingInformationEntry::attr`, then `gimli::Attribute::value`:
/// the normalized form of the DIE's first attribute named `at`.
#[verifier::external_body]
fn entry_attr_form(die: &GimliDIE<'_, '_>, at: u16) -> (read: FormRead)
    ensures
        read == die_model(die).attr(at).form_read(),
{
    let Ok(found) = die.entry.attr(DwAt(at)) else { return FormRead::Failed };
    let Some(attr) = found else { return FormRead::Absent };
    FormRead::Present(match attr.value() {
        AttributeValue::String(_) => AttrForm::String,
        AttributeValue::DebugStrRef(to) => AttrForm::DebugStrRef(to.0),
        AttributeValue::DebugLineStrRef(to) => AttrForm::DebugLineStrRef(to.0),
        AttributeValue::UnitRef(to) => AttrForm::UnitRef(to.0),
        AttributeValue::Exprloc(_) => AttrForm::Exprloc,
        AttributeValue::LocationListsRef(_) => AttrForm::LocationListsRef,
        AttributeValue::Language(code) => AttrForm::Language(code.0),
        AttributeValue::Flag(set) => AttrForm::Flag(set),
        _ => AttrForm::Other,
    })
}

/// `gimli::DebuggingInformationEntry::attr`, then
/// `gimli::Attribute::udata_value`: the value of the DIE's first attribute
/// named `at` as an unsigned constant, where it is one.
#[verifier::external_body]
fn entry_attr_udata(die: &GimliDIE<'_, '_>, at: u16) -> (value: Option<u64>)
    ensures
        value == die_model(die).attr(at).udata(),
{
    die.entry.attr(DwAt(at)).ok()??.udata_value()
}

/// `gimli::DebuggingInformationEntry::attr`, then
/// `gimli::Attribute::sdata_value`: the value of the DIE's first attribute
/// named `at` as a signed constant, where it is one.
#[verifier::external_body]
fn entry_attr_sdata(die: &GimliDIE<'_, '_>, at: u16) -> (value: Option<i64>)
    ensures
        value == die_model(die).attr(at).sdata(),
{
    die.entry.attr(DwAt(at)).ok()??.sdata_value()
}

/// `gimli::DebuggingInformationEntry::attr_value`, then
/// `gimli::EndianSlice::to_string`: the text of the DIE's attribute `at`
/// where it is stored inline and is valid UTF-8, else `None`.
#[verifier::external_body]
fn entry_inline_string(die: &GimliDIE<'_, '_>, at: u16) -> (text: Option<String>)
    ensures
        match text {
            Some(s) => die_model(die).inline_strings.contains_key(at) && die_model(die).inline_strings[at] == s@,
            None => !die_model(die).inline_strings.contains_key(at),
        },
{
    match die.entry.attr_value(DwAt(at)).ok()?? {
        AttributeValue::String(slice) => slice.to_string().ok().map(|text| text.to_string()),
        _ => None,
    }
}

/// The tag of the DIE at `offset` of `unit`, or `None` where no DIE can be
/// read there.
pub fn die_tag(unit: &GimliCU<'_>, offset: usize) -> (tag: Option<u16>)
    ensures
        tag == unit_model(unit).tag(offset),
{
    match unit_entry(unit, offset) {
        Some(die) => Some(entry_tag(&die)),
        None => None,
    }
}

/// Looks up the attribute `at` of the DIE at `offset` of `unit`: `None`
/// where no DIE can be read there.
pub fn die_attr(unit: &GimliCU<'_>, offset: usize, at: u16) -> (read: Option<AttrRead>)
    ensures
        read == unit_model(unit).attr(offset, at),
{
    match unit_entry(unit, offset) {
        None => None,
        Some(die) => match entry_attr_form(&die, at) {
            FormRead::Failed => Some(AttrRead::Failed),
            FormRead::Absent => Some(AttrRead::Absent),
            FormRead::Present(form) => {
                let udata = entry_attr_udata(&die, at);
                let sdata = entry_attr_sdata(&die, at);
                Some(AttrRead::Present(Attr { udata, sdata, form }))
            },
        },
    }
}

/// The text of the attribute `at` of the DIE at `offset` of `unit`, where
/// it is stored inline in the DIE and is valid UTF-8.
pub fn die_inline_string(unit: &GimliCU<'_>, offset: usize, at: u16) -> (text: Option<String>)
    ensures
        match text {
            Some(s) => unit_model(unit).inline_string(offset, at) == Some(s@),
            None => unit_model(unit).inline_string(offset, at) is None,
        },
{
    match unit_entry(unit, offset) {
        Some(die) => entry_inline_string(&die, at),
        None => None,
    }
}

/// `gimli::Unit::entries`: a walk through all DIEs of the unit.
#[verifier::external_body]
pub(crate) fn unit_entries<'u, 'a>(unit: &'u GimliCU<'a>) -> (entries: Entries<'u, 'a>)
    ensures
        entries_left(&entries) == unit_model(unit).entries,
{
    Entries { cursor: unit.unit.entries() }
}

/// `gimli::Unit::entries_at_offset`, then one `next_dfs`: a walk that stands
/// on the DIE at `offset` and will hand out the DIEs behind it; `None` where
/// either call fails.
#[verifier::external_body]
pub(crate) fn entries_after<'u, 'a>(unit: &'u GimliCU<'a>, offset: usize) -> (entries: Option<Entries<'u, 'a>>)
    ensures
        match entries {
            Some(e) => unit_model(unit).walk(offset) == Some(entries_left(&e)),
            None => unit_model(unit).walk(offset) is None,
        },
{
    let mut cursor = unit.unit.entries_at_offset(UnitOffset(offset)).ok()?;
    cursor.next_dfs().ok()?;
    Some(Entries { cursor })
}

/// `gimli::EntriesCursor::next_dfs`: the next DIE of the walk, or `None`
/// when the walk has ended or the next DIE fails to decode.
#[verifier::external_body]
pub(crate) fn next_dfs(entries: &mut Entries<'_, '_>) -> (next: Option<DieHead>)
    ensures
        match next {
            Some(head) => entries_left(&*old(entries)).len() > 0
                && head == entries_left(&*old(entries))[0]
                && entries_left(&*final(entries)) == entries_left(&*old(entries)).skip(1),
            None => entries_left(&*old(entries)).len() == 0
                && entries_left(&*final(entries)).len() == 0,
        },
{
    let (delta_depth, entry) = entries.cursor.next_dfs().ok()??;
    Some(DieHead { offset: entry.offset().0, tag: entry.tag().0, delta_depth })
}

/// A position in the DWARF data: a compile unit and a DIE in it.
///
/// The position is pure coordinate data. It means something only against the
/// reader that produced it.
#[derive(Copy, Clone, Debug, PartialEq, Eq, Structural)]
pub struct DwarfUnit {
    /// Offset of the unit's header in `.debug_info`.
    pub die_offset: usize,
    /// Offset of the DIE within the unit.
    pub entry_offset: usize,
}

/// A reader whose sections the decoder can borrow.
pub trait BorrowableDwarf {
    /// What the reader's sections hold.
    spec fn model(&self) -> DwarfModel;

    /// A view of the sections for the decoder.
    fn borrow_dwarf(&self) -> (view: GimliDwarf<'_>)
        ensures
            dwarf_model(&view) == self.model(),
    ;
}

impl BorrowableDwarf for Dwarf<'_> {
    open spec fn model(&self) -> DwarfModel {
        borrowed_sections(self)
    }

    fn borrow_dwarf(&self) -> (view: GimliDwarf<'_>) {
        borrow_cow(self)
    }
}

impl BorrowableDwarf for OwnedDwarf {
    open spec fn model(&self) -> DwarfModel {
        owned_sections(self)
    }

    fn borrow_dwarf(&self) -> (view: GimliDwarf<'_>) {
        borrow_vec(self)
    }
}

/// The unit that a position lies in: the unit at the
/// position's header offset, or `CUError`.
pub open spec fn spec_unit_context(m: DwarfModel, unit_pos: DwarfUnit) -> Result<UnitModel, ErrorKind> {
    match m.unit(unit_pos.die_offset) {
        Some(u) => Ok(u),
        None => Err(ErrorKind::CUError),
    }
}

/// Access to compile units by position.
pub trait DwarfContext: BorrowableDwarf {
    /// Resolves the compile unit that `unit_pos` lies in. Nothing is cached:
    /// each call decodes the unit's header and abbreviations anew.
    fn unit_context(&self, unit_pos: &DwarfUnit) -> (r: Result<GimliCU<'_>, Error>)
        ensures
            match r {
                Ok(unit) => spec_unit_context(self.model(), *unit_pos) == Ok::<UnitModel, ErrorKind>(unit_model(&unit)),
                Err(e) => spec_unit_context(self.model(), *unit_pos) == Err::<UnitModel, ErrorKind>(e@),
            },
    {
        let view = self.borrow_dwarf();
        match resolve_unit(&view, unit_pos.die_offset) {
            Ok(unit) => Ok(unit),
            Err(cause) => Err(Error::unit_not_found(unit_pos.die_offset, cause.as_str())),
        }
    }

    /// Resolves the DIE that `unit_pos` designates and gives its tag. The
    /// unit is resolved first, anew on each call.
    fn entry_context(&self, unit_pos: &DwarfUnit) -> (r: Result<u16, Error>)
        ensures
            match spec_entry_context(self.model(), *unit_pos) {
                Ok(tag) => r is Ok && r->Ok_0 == tag,
                Err(k) => r is Err && r->Err_0@ == k,
            },
    {
        match self.unit_context(unit_pos) {
            Ok(unit) => unit.entry_context(unit_pos),
            Err(e) => Err(e),
        }
    }
}

/// The tag of the DIE at a position, in the unit that the position names:
/// `CUError` where the unit does not resolve, `DIEError` where no DIE can be
/// read at the entry offset.
pub open spec fn spec_entry_context(m: DwarfModel, unit_pos: DwarfUnit) -> Result<u16, ErrorKind> {
    match spec_unit_context(m, unit_pos) {
        Ok(u) => match u.tag(unit_pos.entry_offset) {
            Some(tag) => Ok(tag),
            None => Err(ErrorKind::DIEError),
        },
        Err(e) => Err(e),
    }
}

impl GimliCU<'_> {
    /// The tag of the DIE at the entry offset of `unit_pos` in this unit.
    pub fn entry_context(&self, unit_pos: &DwarfUnit) -> (r: Result<u16, Error>)
        ensures
            match unit_model(self).tag(unit_pos.entry_offset) {
                Some(tag) => r is Ok && r->Ok_0 == tag,
                None => r is Err && r->Err_0@ == ErrorKind::DIEError,
            },
    {
        match die_tag(self, unit_pos.entry_offset) {
            Some(tag) => Ok(tag),
            None => Err(Error::die_not_found(unit_pos.entry_offset)),
        }
    }

    /// The length of this unit in `.debug_info`, its header included. No
    /// unit is empty.
    pub fn length(&self) -> (size: usize)
        ensures
            size == unit_model(self).size,
            size > 0,
    {
        unit_length(self)
    }

    /// The size of an address on the target of this unit, in bytes.
    pub fn address_size(&self) -> (size: u8)
        ensures
            size == unit_model(self).address_size,
    {
        unit_address_size(self)
    }
}

impl DwarfContext for Dwarf<'_> {}

impl DwarfContext for OwnedDwarf {}

/// A struct to hold the key of the fine-grained struct map: two structs of
/// one name are told apart by their size and by the names and offsets of
/// their members.
#[derive(Debug, PartialEq, Eq, Hash)]
pub struct StructHashKey {
    /// The name of the struct
    pub name: String,
    /// The size of the struct in bytes
    pub byte_size: usize,
    /// A tuple of: member name, member offset
    pub members: Vec<(String, usize)>,
}

/// A key of the fine-grained struct map as mathematical values.
pub struct StructKeyView {
    pub name: Seq<char>,
    pub byte_size: usize,
    pub members: Seq<(Seq<char>, usize)>,
}

impl View for StructHashKey {
    type V = StructKeyView;

    open spec fn view(&self) -> StructKeyView {
        StructKeyView {
            name: self.name@,
            byte_size: self.byte_size,
            members: Seq::new(self.members@.len(), |i: int| (self.members@[i].0@, self.members@[i].1)),
        }
    }
}

/// An object file whose container format has been parsed.
#[verifier::external_body]
pub struct ObjectFile<'a> {
    file: object::File<'a>,
}

/// The bytes of one section of an object file, uncompressed.
#[verifier::external_body]
pub struct SectionData<'a> {
    bytes: std::borrow::Cow<'a, [u8]>,
}

/// Whether `data` parses as an object file of a supported container format.
pub uninterp spec fn object_parses(data: Seq<u8>) -> bool;

/// The bytes that an [`ObjectFile`] was parsed from.
pub uninterp spec fn object_bytes(file: &ObjectFile<'_>) -> Seq<u8>;

/// The uncompressed bytes of the section `name` of the object file `data`:
/// `None` where the file has no such section or the section fails to
/// decompress.
pub uninterp spec fn section_bytes(data: Seq<u8>, name: Seq<char>) -> Option<Seq<u8>>;

/// The bytes that a [`SectionData`] holds.
pub uninterp spec fn section_view(section: &SectionData<'_>) -> Seq<u8>;

/// What the DWARF sections of the object file `data` hold, each section
/// taken as [`spec_section_or_empty`] gives it and read in the byte order
/// that the file reports.
pub uninterp spec fn loaded_model(data: Seq<u8>) -> DwarfModel;

/// `object::File::parse`: the parsed file, or the message of the error.
#[verifier::external_body]
fn parse_object<'a>(data: &'a [u8]) -> (r: Result<ObjectFile<'a>, String>)
    ensures
        match r {
            Ok(file) => object_parses(data@) && object_bytes(&file) == data@,
            Err(_) => !object_parses(data@),
        },
{
    object::File::parse(data).map(|file| ObjectFile { file }).map_err(|e| e.to_string())
}

/// `object::Object::section_by_name`, then
/// `object::ObjectSection::uncompressed_data`: the bytes of the section
/// `name`, or `None` where it is absent or fails to decompress.
#[verifier::external_body]
fn uncompressed_section<'a>(file: &ObjectFile<'a>, name: &str) -> (r: Option<SectionData<'a>>)
    ensures
        match r {
            Some(section) => section_bytes(object_bytes(file), name@) == Some(section_view(&section)),
            None => section_bytes(object_bytes(file), name@) is None,
        },
{
    let section = file.file.section_by_name(name)?;
    section.uncompressed_data().ok().map(|bytes| SectionData { bytes })
}

/// `Cow::Borrowed` of an empty slice: a section without bytes.
#[verifier::external_body]
fn empty_section<'a>() -> (r: SectionData<'a>)
    ensures
        section_view(&r) == Seq::<u8>::empty(),
{
    SectionData { bytes: std::borrow::Cow::Borrowed(&[][..]) }
}

/// `Cow::into_owned`: the bytes of a section as a vector.
#[verifier::external_body]
fn into_bytes(section: SectionData<'_>) -> (r: Vec<u8>)
    ensures
        r@ == section_view(&section),
{
    section.bytes.into_owned()
}

/// The bytes of the section `name` as the loader takes them: a section that
/// is absent or fails to decompress counts as empty.
pub open spec fn spec_section_or_empty(data: Seq<u8>, name: Seq<char>) -> Seq<u8> {
    match section_bytes(data, name) {
        Some(bytes) => bytes,
        None => Seq::empty(),
    }
}

/// Reads the section `name` of `file`. Absent DWARF sections are no error:
/// they are empty.
pub fn section_or_empty<'a>(file: &ObjectFile<'a>, name: &str) -> (section: SectionData<'a>)
    ensures
        section_view(&section) == spec_section_or_empty(object_bytes(file), name@),
{
    match uncompressed_section(file, name) {
        Some(section) => section,
        None => empty_section(),
    }
}

/// Reads the section `name` of `file` into a vector of its own.
pub fn owned_section(file: &ObjectFile<'_>, name: &str) -> (bytes: Vec<u8>)
    ensures
        bytes@ == spec_section_or_empty(object_bytes(file), name@),
{
    into_bytes(section_or_empty(file, name))
}

/// `gimli::Dwarf::load` with [`section_or_empty`] as the loader, and
/// `object::Object::is_little_endian` for the byte order: the sections hold
/// what the decoder reads from the file's DWARF sections.
#[verifier::external_body]
fn load_borrowed<'a>(file: &ObjectFile<'a>) -> (dwarf: Dwarf<'a>)
    ensures
        borrowed_sections(&dwarf) == loaded_model(object_bytes(file)),
{
    let little = file.file.is_little_endian();
    let endianness = if little { gimli::RunTimeEndian::Little } else { gimli::RunTimeEndian::Big };
    let load = |id: gimli::SectionId| -> Result<_, gimli::Error> { Ok(section_or_empty(file, id.name()).bytes) };
    Dwarf { dwarf_cow: gimli::Dwarf::load(load).unwrap(), endianness }
}

/// `gimli::Dwarf::load` with [`owned_section`] as the loader, and
/// `object::Object::is_little_endian` for the byte order: the sections hold
/// what the decoder reads from the file's DWARF sections.
#[verifier::external_body]
fn load_owned(file: &ObjectFile<'_>) -> (dwarf: OwnedDwarf)
    ensures
        owned_sections(&dwarf) == loaded_model(object_bytes(file)),
{
    let little = file.file.is_little_endian();
    let endianness = if little { gimli::RunTimeEndian::Little } else { gimli::RunTimeEndian::Big };
    let load = |id: gimli::SectionId| -> Result<_, gimli::Error> { Ok(owned_section(file, id.name())) };
    OwnedDwarf { dwarf_vec: gimli::Dwarf::load(load).unwrap(), endianness }
}

impl<'a> Dwarf<'a> {
    /// Loads the DWARF sections of the object file `data`, borrowing the
    /// bytes of the sections that are not compressed. Fails only where the
    /// container itself does not parse.
    pub fn load(data: &'a [u8]) -> (r: Result<Dwarf<'a>, Error>)
        ensures
            match r {
                Ok(dwarf) => object_parses(data@) && dwarf.model() == loaded_model(data@),
                Err(e) => !object_parses(data@) && e@ == ErrorKind::ObjectError,
            },
    {
        match parse_object(data) {
            Ok(file) => Ok(load_borrowed(&file)),
            Err(message) => Err(Error::ObjectError(message)),
        }
    }
}

impl OwnedDwarf {
    /// Loads the DWARF sections of the object file `data` into memory of
    /// their own, so that `data` need not outlive the reader. Fails only
    /// where the container itself does not parse.
    pub fn load(data: &[u8]) -> (r: Result<OwnedDwarf, Error>)
        ensures
            match r {
                Ok(dwarf) => object_parses(data@) && dwarf.model() == loaded_model(data@),
                Err(e) => !object_parses(data@) && e@ == ErrorKind::ObjectError,
            },
    {
        match parse_object(data) {
            Ok(file) => Ok(load_owned(&file)),
            Err(message) => Err(Error::ObjectError(message)),
        }
    }
}

} // verus!
