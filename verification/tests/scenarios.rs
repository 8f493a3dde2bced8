use dwat::format::{format_member, format_type};
use dwat::index::{for_each_tagged_entry, tagged_entries};
use dwat::prelude::{DwarfContext, DwarfLookups, HasMembers, InnerType, NamedType, Tagged};
use dwat::{Array, Base, CompileUnit, Dwarf, DwarfUnit, Enum, ErrorKind, Language, OwnedDwarf, Pointer, Struct};
use dwat::{Error, Subroutine, Type, Typedef, Union, Variable};
use gimli::write::{AttributeValue, Dwarf as DwarfWriter, EndianVec, LineProgram, Sections, Unit, UnitEntryId, UnitId};
use gimli::{Encoding, Format, LittleEndian};
use object::{Object, ObjectSection};

fn new_unit(dwarf: &mut DwarfWriter) -> UnitId {
    let encoding = Encoding { format: Format::Dwarf32, version: 5, address_size: 8 };
    dwarf.units.add(Unit::new(encoding, LineProgram::none()))
}

fn text(value: &str) -> AttributeValue {
    AttributeValue::String(value.as_bytes().to_vec())
}

fn base(unit: &mut Unit, name: &str, size: u64) -> UnitEntryId {
    let root = unit.root();
    let id = unit.add(root, gimli::DW_TAG_base_type);
    unit.get_mut(id).set(gimli::DW_AT_name, text(name));
    unit.get_mut(id).set(gimli::DW_AT_byte_size, AttributeValue::Udata(size));
    id
}

fn structure(unit: &mut Unit, name: Option<&str>, size: u64) -> UnitEntryId {
    let root = unit.root();
    let id = unit.add(root, gimli::DW_TAG_structure_type);
    if let Some(name) = name {
        unit.get_mut(id).set(gimli::DW_AT_name, text(name));
    }
    unit.get_mut(id).set(gimli::DW_AT_byte_size, AttributeValue::Udata(size));
    id
}

fn member(unit: &mut Unit, parent: UnitEntryId, name: &str, typ: UnitEntryId, offset: u64) -> UnitEntryId {
    let id = unit.add(parent, gimli::DW_TAG_member);
    unit.get_mut(id).set(gimli::DW_AT_name, text(name));
    unit.get_mut(id).set(gimli::DW_AT_type, AttributeValue::UnitRef(typ));
    unit.get_mut(id).set(gimli::DW_AT_data_member_location, AttributeValue::Udata(offset));
    id
}

fn modifier(unit: &mut Unit, tag: gimli::DwTag, typ: Option<UnitEntryId>) -> UnitEntryId {
    let root = unit.root();
    let id = unit.add(root, tag);
    if let Some(typ) = typ {
        unit.get_mut(id).set(gimli::DW_AT_type, AttributeValue::UnitRef(typ));
    }
    id
}

fn object_file(dwarf: &mut DwarfWriter) -> Vec<u8> {
    let mut sections = Sections::new(EndianVec::new(LittleEndian));
    dwarf.write(&mut sections).unwrap();
    let mut object = object::write::Object::new(
        object::BinaryFormat::Elf,
        object::Architecture::X86_64,
        object::Endianness::Little,
    );
    sections
        .for_each(|id, data| -> Result<(), ()> {
            if !data.slice().is_empty() {
                let section = object.add_section(Vec::new(), id.name().as_bytes().to_vec(), object::SectionKind::Debug);
                object.set_section_data(section, data.slice().to_vec(), 1);
            }
            Ok(())
        })
        .unwrap();
    object.write().unwrap()
}

fn simple_object() -> Vec<u8> {
    let mut dwarf = DwarfWriter::new();
    let id = new_unit(&mut dwarf);
    let unit = dwarf.units.get_mut(id);
    let ull = base(unit, "long long unsigned int", 8);
    let simple = structure(unit, Some("simple"), 8);
    member(unit, simple, "s", ull, 0);
    object_file(&mut dwarf)
}

fn padded_object(packed: bool) -> Vec<u8> {
    let mut dwarf = DwarfWriter::new();
    let id = new_unit(&mut dwarf);
    let unit = dwarf.units.get_mut(id);
    let uint = base(unit, "unsigned int", 4);
    let ull = base(unit, "long long unsigned int", 8);
    if packed {
        let s = structure(unit, Some("packed"), 12);
        member(unit, s, "ui", uint, 0);
        member(unit, s, "ull", ull, 4);
    } else {
        let s = structure(unit, Some("padded"), 16);
        member(unit, s, "ui", uint, 0);
        member(unit, s, "ull", ull, 8);
    }
    object_file(&mut dwarf)
}

#[test]
fn simple_struct() {
    let bytes = simple_object();
    let dwarf = Dwarf::load(&bytes).unwrap();

    let found = dwarf.lookup_type::<Struct>("simple".to_string()).unwrap();
    assert!(found.is_some());

    let found = found.unwrap();
    assert!(found.members(&dwarf).unwrap().len() == 1);

    let byte_size = found.byte_size(&dwarf).unwrap();
    assert!(byte_size == 8);

    let members = found.members(&dwarf).unwrap();
    assert_eq!(members[0].offset(&dwarf).unwrap(), 0);
    assert_eq!(members[0].name(&dwarf).unwrap(), "s");
    assert_eq!(found.name(&dwarf).unwrap(), "simple");
}

#[test]
fn padded_struct() {
    let bytes = padded_object(false);
    let dwarf = Dwarf::load(&bytes).unwrap();

    let found = dwarf.lookup_type::<Struct>("padded".to_string()).unwrap();
    assert!(found.is_some());

    let found = found.unwrap();
    assert!(found.members(&dwarf).unwrap().len() == 2);

    // Expect padding on the int to push the size from 12 to 16
    let byte_size = found.byte_size(&dwarf).unwrap();
    assert!(byte_size == 16);

    let offsets = found.members(&dwarf).unwrap().into_iter().map(|memb| memb.offset(&dwarf)).collect::<Vec<_>>();

    if let Ok(first_offset) = offsets[0] {
        assert!(first_offset == 0);
    } else {
        panic!("failed to get first offset");
    }

    if let Ok(second_offset) = offsets[1] {
        assert!(second_offset == 8);
    } else {
        panic!("failed to get second offset");
    }

    let stats = found.alignment_stats(&dwarf).unwrap();
    assert_eq!(stats.nr_holes, 1);
    assert_eq!(stats.hole_positions, vec![(1, 4)]);
    assert_eq!(stats.sum_holes, 4);
    assert_eq!(stats.sum_member_size, 12);
    assert_eq!(stats.padding, 0);
    assert_eq!(stats.nr_unnat_alignment, 0);
    assert_eq!(stats.sum_member_size + stats.sum_holes + stats.padding, byte_size);
}

#[test]
fn packed_struct() {
    let bytes = padded_object(true);
    let dwarf = Dwarf::load(&bytes).unwrap();

    let found = dwarf.lookup_type::<Struct>("packed".to_string()).unwrap();
    assert!(found.is_some());

    let found = found.unwrap();
    assert!(found.members(&dwarf).unwrap().len() == 2);

    // Expect packing to smoosh the long and int against eachother
    let byte_size = found.byte_size(&dwarf).unwrap();
    assert!(byte_size == 12);

    let offsets = found.members(&dwarf).unwrap().into_iter().map(|memb| memb.offset(&dwarf)).collect::<Vec<_>>();

    if let Ok(first_offset) = offsets[0] {
        assert!(first_offset == 0);
    } else {
        panic!("failed to get first offset");
    }

    if let Ok(second_offset) = offsets[1] {
        assert!(second_offset == 4);
    } else {
        panic!("failed to get second offset");
    }

    let stats = found.alignment_stats(&dwarf).unwrap();
    assert_eq!(stats.nr_holes, 0);
    assert_eq!(stats.hole_positions, vec![]);
    assert_eq!(stats.padding, 0);
    assert_eq!(stats.nr_unnat_alignment, 1);
}

#[test]
fn lookup_misses_an_unknown_name() {
    let bytes = simple_object();
    let dwarf = OwnedDwarf::load(&bytes).unwrap();
    assert!(dwarf.lookup_type::<Struct>("absent".to_string()).unwrap().is_none());
    assert!(dwarf.lookup_type::<dwat::Union>("simple".to_string()).unwrap().is_none());
}

#[test]
fn load_rejects_bytes_that_are_no_object_file() {
    let bytes = vec![1u8, 2, 3, 4, 5, 6, 7, 8];
    assert_eq!(Dwarf::load(&bytes).err().unwrap().kind(), ErrorKind::ObjectError);
    assert_eq!(OwnedDwarf::load(&bytes).err().unwrap().kind(), ErrorKind::ObjectError);
}

#[test]
fn struct_prints_as_c_source() {
    let bytes = padded_object(false);
    let dwarf = Dwarf::load(&bytes).unwrap();
    let found = dwarf.lookup_type::<Struct>("padded".to_string()).unwrap().unwrap();
    assert_eq!(
        found.to_string(&dwarf).unwrap(),
        "struct padded {\n    unsigned int ui;\n    long long unsigned int ull;\n};"
    );
    let line_one = format!("    unsigned int ui;{}\t/* sz:    4 | off:    0 */\n", " ".repeat(28));
    let line_two = format!("    long long unsigned int ull;{}\t/* sz:    8 | off:    8 */\n", " ".repeat(17));
    assert_eq!(
        found.to_string_verbose(&dwarf, 1).unwrap(),
        format!("struct padded {{\n{line_one}{line_two}\n    /* total size: 16 */\n}};")
    );
}

#[test]
fn member_types_resolve_to_typed_handles() {
    let bytes = simple_object();
    let dwarf = Dwarf::load(&bytes).unwrap();
    let found = dwarf.lookup_type::<Struct>("simple".to_string()).unwrap().unwrap();
    let members = found.members(&dwarf).unwrap();
    let typ = members[0].get_type(&dwarf).unwrap();
    assert!(matches!(typ, Type::Base(_)));
    assert_eq!(typ.byte_size(&dwarf).unwrap(), 8);
    assert_eq!(members[0].byte_size(&dwarf).unwrap(), 8);
    assert_eq!(members[0].bit_size(&dwarf).err().unwrap().kind(), ErrorKind::BitSizeAttributeNotFound);
    assert_eq!(found.alignment(&dwarf).err().unwrap().kind(), ErrorKind::AlignmentAttributeNotFound);
    let unit = dwarf.unit_context(&found.location).unwrap();
    assert_eq!(found.u_byte_size(&unit).unwrap(), 8);
}

fn child(unit: &mut Unit, parent: UnitEntryId, tag: gimli::DwTag, typ: Option<UnitEntryId>) -> UnitEntryId {
    let id = unit.add(parent, tag);
    if let Some(typ) = typ {
        unit.get_mut(id).set(gimli::DW_AT_type, AttributeValue::UnitRef(typ));
    }
    id
}

fn nested_object() -> Vec<u8> {
    let mut dwarf = DwarfWriter::new();
    let id = new_unit(&mut dwarf);
    let unit = dwarf.units.get_mut(id);
    let int = base(unit, "int", 4);
    let inner = structure(unit, None, 8);
    member(unit, inner, "b", int, 0);
    member(unit, inner, "c", int, 4);
    let outer = structure(unit, Some("outer"), 16);
    member(unit, outer, "a", int, 0);
    member(unit, outer, "s", inner, 4);
    member(unit, outer, "d", int, 12);
    object_file(&mut dwarf)
}

#[test]
fn anonymous_struct_is_written_out_with_its_field_name() {
    let bytes = nested_object();
    let dwarf = Dwarf::load(&bytes).unwrap();
    let outer = dwarf.lookup_type::<Struct>("outer".to_string()).unwrap().unwrap();
    assert_eq!(
        outer.to_string(&dwarf).unwrap(),
        "struct outer {\n    int a;\n    struct {\n        int b;\n        int c;\n    } s;\n    int d;\n};"
    );
    let verbose = outer.to_string_verbose(&dwarf, 1).unwrap();
    let lines: Vec<&str> = verbose.split('\n').collect();
    assert_eq!(lines[2], "    struct {");
    assert_eq!(lines[3], format!("        int b;{}\t/* sz:    4 | off:    4 */", " ".repeat(34)));
    assert_eq!(lines[4], format!("        int c;{}\t/* sz:    4 | off:    8 */", " ".repeat(34)));
    assert_eq!(lines[5], format!("    }} s;{}\t/* sz:    8 | off:    4 */", " ".repeat(40)));
    assert_eq!(lines[6], format!("    int d;{}\t/* sz:    4 | off:   12 */", " ".repeat(38)));
    let stats = outer.alignment_stats(&dwarf).unwrap();
    assert_eq!(stats.nr_holes, 0);
    assert_eq!(stats.sum_member_size, 16);
}

fn callback_object() -> Vec<u8> {
    let mut dwarf = DwarfWriter::new();
    let id = new_unit(&mut dwarf);
    let unit = dwarf.units.get_mut(id);
    let int = base(unit, "int", 4);
    let chr = base(unit, "char", 1);
    let char_ptr = modifier(unit, gimli::DW_TAG_pointer_type, Some(chr));
    let char_ptr_ptr = modifier(unit, gimli::DW_TAG_pointer_type, Some(char_ptr));
    let void_ptr = modifier(unit, gimli::DW_TAG_pointer_type, None);
    let const_void = modifier(unit, gimli::DW_TAG_const_type, None);
    let const_int = modifier(unit, gimli::DW_TAG_const_type, Some(int));
    let volatile_int = modifier(unit, gimli::DW_TAG_volatile_type, Some(int));
    let restrict_ptr = modifier(unit, gimli::DW_TAG_restrict_type, Some(char_ptr));
    let function = modifier(unit, gimli::DW_TAG_subroutine_type, Some(int));
    child(unit, function, gimli::DW_TAG_formal_parameter, Some(int));
    child(unit, function, gimli::DW_TAG_formal_parameter, Some(char_ptr));
    let function_ptr = modifier(unit, gimli::DW_TAG_pointer_type, Some(function));
    let procedure = modifier(unit, gimli::DW_TAG_subroutine_type, None);
    let procedure_ptr = modifier(unit, gimli::DW_TAG_pointer_type, Some(procedure));
    let s = structure(unit, Some("cb"), 72);
    member(unit, s, "fp", function_ptr, 0);
    member(unit, s, "done", procedure_ptr, 8);
    member(unit, s, "argv", char_ptr_ptr, 16);
    member(unit, s, "data", void_ptr, 24);
    member(unit, s, "cv", const_void, 32);
    member(unit, s, "ci", const_int, 40);
    member(unit, s, "vi", volatile_int, 48);
    member(unit, s, "rp", restrict_ptr, 56);
    member(unit, s, "name", char_ptr, 64);
    object_file(&mut dwarf)
}

#[test]
fn function_pointer_prints_in_c_syntax() {
    let bytes = callback_object();
    let dwarf = Dwarf::load(&bytes).unwrap();
    let cb = dwarf.lookup_type::<Struct>("cb".to_string()).unwrap().unwrap();
    let text = cb.to_string(&dwarf).unwrap();
    let lines: Vec<&str> = text.split('\n').collect();
    assert_eq!(lines[0], "struct cb {");
    assert_eq!(lines[1], "    int (*fp)(int, char *);");
    assert_eq!(lines[2], "    void (*done)();");
    assert_eq!(lines[3], "    char **argv;");
    assert_eq!(lines[4], "    void *data;");
    assert_eq!(lines[5], "    const void;");
    assert_eq!(lines[6], "    const int;");
    assert_eq!(lines[7], "    volatile int;");
    assert_eq!(lines[8], "    char * restrict;");
    assert_eq!(lines[9], "    char *name;");
    assert_eq!(lines[10], "};");
}

#[test]
fn pointer_is_as_large_as_an_address() {
    let bytes = callback_object();
    let dwarf = Dwarf::load(&bytes).unwrap();
    let cb = dwarf.lookup_type::<Struct>("cb".to_string()).unwrap().unwrap();
    let members = cb.members(&dwarf).unwrap();
    let fp = members[0].get_type(&dwarf).unwrap();
    assert_eq!(fp.byte_size(&dwarf).unwrap(), 8);
    let Type::Pointer(pointer) = fp else { panic!("fp is a pointer") };
    assert_eq!(pointer.byte_size(&dwarf).unwrap(), 8);
    let target = pointer.deref(&dwarf).unwrap();
    let Type::Subroutine(function) = target else { panic!("fp points to a subroutine type") };
    assert_eq!(target.byte_size(&dwarf).err().unwrap().kind(), ErrorKind::SizeNotApplicable);
    let params = function.get_params(&dwarf).unwrap();
    assert_eq!(params.len(), 2);
    assert!(matches!(params[0].get_type(&dwarf).unwrap(), Type::Base(_)));
    assert!(matches!(params[1].get_type(&dwarf).unwrap(), Type::Pointer(_)));
    assert!(matches!(function.get_type(&dwarf).unwrap(), Type::Base(_)));
    let data = members[3].get_type(&dwarf).unwrap();
    let Type::Pointer(void_ptr) = data else { panic!("data is a pointer") };
    assert_eq!(void_ptr.get_type(&dwarf).err().unwrap().kind(), ErrorKind::TypeAttributeNotFound);
    assert_eq!(members[5].byte_size(&dwarf).unwrap(), 4);
    assert_eq!(members[6].byte_size(&dwarf).unwrap(), 4);
    assert_eq!(members[7].byte_size(&dwarf).unwrap(), 8);
}

fn two_units_object() -> Vec<u8> {
    let mut dwarf = DwarfWriter::new();
    let first = new_unit(&mut dwarf);
    {
        let unit = dwarf.units.get_mut(first);
        let int = base(unit, "int", 4);
        let foo = structure(unit, Some("foo"), 4);
        member(unit, foo, "a", int, 0);
        let bar = structure(unit, Some("bar"), 4);
        member(unit, bar, "x", int, 0);
        let root = unit.root();
        let opaque = unit.add(root, gimli::DW_TAG_structure_type);
        unit.get_mut(opaque).set(gimli::DW_AT_name, text("opaque"));
        unit.get_mut(opaque).set(gimli::DW_AT_declaration, AttributeValue::FlagPresent);
    }
    let second = new_unit(&mut dwarf);
    {
        let unit = dwarf.units.get_mut(second);
        let int = base(unit, "int", 4);
        let foo = structure(unit, Some("foo"), 8);
        member(unit, foo, "a", int, 0);
        member(unit, foo, "b", int, 4);
        let bar = structure(unit, Some("bar"), 4);
        member(unit, bar, "x", int, 0);
    }
    object_file(&mut dwarf)
}

#[test]
fn same_name_in_two_units_is_one_name_and_two_shapes() {
    let bytes = two_units_object();
    let dwarf = Dwarf::load(&bytes).unwrap();

    let list = dwarf.get_named_types::<Struct>().unwrap();
    let names: Vec<&str> = list.iter().map(|(name, _)| name.as_str()).collect();
    assert_eq!(names, vec!["foo", "bar", "foo", "bar"]);

    let map = dwarf.get_named_types_map::<Struct>().unwrap();
    assert_eq!(map.len(), 2);
    let foos: Vec<&(String, Struct)> = map.iter().filter(|(name, _)| name == "foo").collect();
    assert_eq!(foos.len(), 1);
    assert_eq!(foos[0].1, list[2].1);
    assert_eq!(foos[0].1.byte_size(&dwarf).unwrap(), 8);

    let shapes = dwarf.get_fg_named_structs_map().unwrap();
    assert_eq!(shapes.len(), 3);
    let foo_shapes: Vec<&(dwat::StructHashKey, Struct)> =
        shapes.iter().filter(|(key, _)| key.name == "foo").collect();
    assert_eq!(foo_shapes.len(), 2);
    assert_eq!(foo_shapes[0].0.byte_size, 4);
    assert_eq!(foo_shapes[0].0.members, vec![("a".to_string(), 0)]);
    assert_eq!(foo_shapes[1].0.byte_size, 8);
    assert_eq!(foo_shapes[1].0.members, vec![("a".to_string(), 0), ("b".to_string(), 4)]);
    let bar_shapes: Vec<&(dwat::StructHashKey, Struct)> =
        shapes.iter().filter(|(key, _)| key.name == "bar").collect();
    assert_eq!(bar_shapes.len(), 1);
    assert_eq!(bar_shapes[0].1, list[3].1);

    let first = dwarf.lookup_type::<Struct>("foo".to_string()).unwrap().unwrap();
    assert_eq!(first, list[0].1);
    assert_eq!(first.name(&dwarf).unwrap(), "foo");
    assert_eq!(first.byte_size(&dwarf).unwrap(), 4);
}

#[test]
fn declarations_are_not_indexed() {
    let bytes = two_units_object();
    let dwarf = OwnedDwarf::load(&bytes).unwrap();
    assert!(dwarf.lookup_type::<Struct>("opaque".to_string()).unwrap().is_none());
    let all = dwarf.get_units::<Struct>().unwrap();
    assert_eq!(all.len(), 5);
    assert_eq!(all[2].name(&dwarf).unwrap(), "opaque");
    assert_eq!(dwarf.get_named_types::<Struct>().unwrap().len(), 4);
    assert_eq!(dwarf.get_units::<CompileUnit>().unwrap().len(), 2);
    assert_eq!(dwarf.get_units::<Base>().unwrap().len(), 2);
}

#[test]
fn borrowed_and_owned_readers_agree() {
    let bytes = two_units_object();
    let borrowed = Dwarf::load(&bytes).unwrap();
    let owned = OwnedDwarf::load(&bytes).unwrap();
    let a = borrowed.get_named_types::<Struct>().unwrap();
    let b = owned.get_named_types::<Struct>().unwrap();
    assert_eq!(a, b);
    let found = owned.lookup_type::<Struct>("bar".to_string()).unwrap().unwrap();
    assert_eq!(found.to_string(&owned).unwrap(), found.to_string(&borrowed).unwrap());
    assert_eq!(found.to_string(&owned).unwrap(), "struct bar {\n    int x;\n};");
}

#[test]
fn positions_that_do_not_resolve_are_errors() {
    let bytes = simple_object();
    let dwarf = Dwarf::load(&bytes).unwrap();
    let found = dwarf.lookup_type::<Struct>("simple".to_string()).unwrap().unwrap();
    let no_unit = Struct::new(DwarfUnit { die_offset: 1 << 20, entry_offset: found.location.entry_offset });
    assert_eq!(no_unit.byte_size(&dwarf).err().unwrap().kind(), ErrorKind::CUError);
    assert_eq!(no_unit.name(&dwarf).err().unwrap().kind(), ErrorKind::CUError);
    assert_eq!(no_unit.members(&dwarf).err().unwrap().kind(), ErrorKind::CUError);
    assert_eq!(no_unit.to_string(&dwarf).err().unwrap().kind(), ErrorKind::CUError);
    let no_entry = Struct::new(DwarfUnit { die_offset: found.location.die_offset, entry_offset: 1 << 20 });
    assert_eq!(no_entry.byte_size(&dwarf).err().unwrap().kind(), ErrorKind::DIEError);
    assert_eq!(no_entry.name(&dwarf).err().unwrap().kind(), ErrorKind::DIEError);
    assert_eq!(no_entry.members(&dwarf).err().unwrap().kind(), ErrorKind::DIEError);
    assert!(no_entry.byte_size(&dwarf).err().unwrap().is_fatal());
}

fn kinds_object() -> Vec<u8> {
    let mut dwarf = DwarfWriter::new();
    let producer = dwarf.strings.add("GNU C17 13.2.0");
    let id = new_unit(&mut dwarf);
    let unit = dwarf.units.get_mut(id);
    let root = unit.root();
    unit.get_mut(root).set(gimli::DW_AT_producer, AttributeValue::StringRef(producer));
    unit.get_mut(root).set(gimli::DW_AT_language, AttributeValue::Language(gimli::DW_LANG_C11));
    unit.get_mut(root).set(gimli::DW_AT_name, text("kinds.c"));
    let int = base(unit, "int", 4);
    let uint = base(unit, "unsigned int", 4);
    let chr = base(unit, "char", 1);
    let word = modifier(unit, gimli::DW_TAG_typedef, Some(uint));
    unit.get_mut(word).set(gimli::DW_AT_name, text("word_t"));
    let color = modifier(unit, gimli::DW_TAG_enumeration_type, Some(uint));
    unit.get_mut(color).set(gimli::DW_AT_name, text("color"));
    for (name, value) in [("RED", 0u64), ("GREEN", 1), ("BLUE", 7)] {
        let e = unit.add(color, gimli::DW_TAG_enumerator);
        unit.get_mut(e).set(gimli::DW_AT_name, text(name));
        unit.get_mut(e).set(gimli::DW_AT_const_value, AttributeValue::Udata(value));
    }
    let nameless = modifier(unit, gimli::DW_TAG_enumeration_type, Some(uint));
    unit.get_mut(nameless).set(gimli::DW_AT_byte_size, AttributeValue::Udata(4));
    let array = modifier(unit, gimli::DW_TAG_array_type, Some(int));
    let range = unit.add(array, gimli::DW_TAG_subrange_type);
    unit.get_mut(range).set(gimli::DW_AT_upper_bound, AttributeValue::Udata(9));
    let counted = modifier(unit, gimli::DW_TAG_array_type, Some(chr));
    let range = unit.add(counted, gimli::DW_TAG_subrange_type);
    unit.get_mut(range).set(gimli::DW_AT_count, AttributeValue::Udata(3));
    let flexible = modifier(unit, gimli::DW_TAG_array_type, Some(chr));
    unit.add(flexible, gimli::DW_TAG_subrange_type);
    let value = unit.add(root, gimli::DW_TAG_union_type);
    unit.get_mut(value).set(gimli::DW_AT_name, text("value"));
    let m = unit.add(value, gimli::DW_TAG_member);
    unit.get_mut(m).set(gimli::DW_AT_name, text("c"));
    unit.get_mut(m).set(gimli::DW_AT_type, AttributeValue::UnitRef(chr));
    let m = unit.add(value, gimli::DW_TAG_member);
    unit.get_mut(m).set(gimli::DW_AT_name, text("w"));
    unit.get_mut(m).set(gimli::DW_AT_type, AttributeValue::UnitRef(word));
    let m = unit.add(value, gimli::DW_TAG_member);
    unit.get_mut(m).set(gimli::DW_AT_name, text("a"));
    unit.get_mut(m).set(gimli::DW_AT_type, AttributeValue::UnitRef(array));
    let s = structure(unit, Some("kinds"), 64);
    unit.get_mut(s).set(gimli::DW_AT_alignment, AttributeValue::Udata(16));
    member(unit, s, "w", word, 0);
    member(unit, s, "c", color, 4);
    member(unit, s, "e", nameless, 8);
    member(unit, s, "a", array, 12);
    member(unit, s, "v", value, 52);
    let bits = unit.add(s, gimli::DW_TAG_member);
    unit.get_mut(bits).set(gimli::DW_AT_name, text("flag"));
    unit.get_mut(bits).set(gimli::DW_AT_type, AttributeValue::UnitRef(uint));
    unit.get_mut(bits).set(gimli::DW_AT_bit_size, AttributeValue::Udata(3));
    member(unit, s, "tail", flexible, 64);
    let var = unit.add(root, gimli::DW_TAG_variable);
    unit.get_mut(var).set(gimli::DW_AT_name, text("counter"));
    unit.get_mut(var).set(gimli::DW_AT_type, AttributeValue::UnitRef(word));
    let located = structure(unit, Some("located"), 8);
    let at = unit.add(located, gimli::DW_TAG_member);
    unit.get_mut(at).set(gimli::DW_AT_name, text("x"));
    unit.get_mut(at).set(gimli::DW_AT_type, AttributeValue::UnitRef(int));
    let mut expression = gimli::write::Expression::new();
    expression.op_plus_uconst(4);
    unit.get_mut(at).set(gimli::DW_AT_data_member_location, AttributeValue::Exprloc(expression));
    let sizeless = unit.add(root, gimli::DW_TAG_structure_type);
    unit.get_mut(sizeless).set(gimli::DW_AT_name, text("sizeless"));
    object_file(&mut dwarf)
}

#[test]
fn sizes_are_derived_where_the_attribute_is_absent() {
    let bytes = kinds_object();
    let dwarf = Dwarf::load(&bytes).unwrap();
    let word = dwarf.lookup_type::<Typedef>("word_t".to_string()).unwrap().unwrap();
    assert_eq!(word.byte_size(&dwarf).unwrap(), 4);
    assert!(matches!(word.get_type(&dwarf).unwrap(), Type::Base(_)));
    let color = dwarf.lookup_type::<Enum>("color".to_string()).unwrap().unwrap();
    assert_eq!(color.byte_size(&dwarf).unwrap(), 4);
    let value = dwarf.lookup_type::<Union>("value".to_string()).unwrap().unwrap();
    assert_eq!(value.byte_size(&dwarf).unwrap(), 40);
    assert_eq!(value.members(&dwarf).unwrap().len(), 3);
    let arrays = dwarf.get_units::<Array>().unwrap();
    assert_eq!(arrays.len(), 3);
    assert_eq!(arrays[0].get_bound(&dwarf).unwrap(), 10);
    assert_eq!(arrays[0].entry_size(&dwarf).unwrap(), 4);
    assert_eq!(arrays[0].byte_size(&dwarf).unwrap(), 40);
    assert_eq!(arrays[1].get_bound(&dwarf).unwrap(), 3);
    assert_eq!(arrays[1].byte_size(&dwarf).unwrap(), 3);
    assert_eq!(arrays[2].get_bound(&dwarf).unwrap(), 0);
    assert_eq!(arrays[2].byte_size(&dwarf).unwrap(), 0);
    let counter = dwarf.lookup_type::<Variable>("counter".to_string()).unwrap().unwrap();
    assert_eq!(counter.byte_size(&dwarf).unwrap(), 4);
    let sizeless = dwarf.lookup_type::<Struct>("sizeless".to_string()).unwrap().unwrap();
    assert_eq!(sizeless.byte_size(&dwarf).err().unwrap().kind(), ErrorKind::ByteSizeAttributeNotFound);
    assert!(!sizeless.byte_size(&dwarf).err().unwrap().is_fatal());
    let pointers = dwarf.get_units::<Pointer>().unwrap();
    assert!(pointers.is_empty());
    assert!(dwarf.get_units::<Subroutine>().unwrap().is_empty());
}

#[test]
fn every_kind_of_member_prints() {
    let bytes = kinds_object();
    let dwarf = Dwarf::load(&bytes).unwrap();
    let kinds = dwarf.lookup_type::<Struct>("kinds".to_string()).unwrap().unwrap();
    assert_eq!(kinds.alignment(&dwarf).unwrap(), 16);
    let text = kinds.to_string(&dwarf).unwrap();
    let lines: Vec<&str> = text.split('\n').collect();
    assert_eq!(lines[0], "struct kinds {");
    assert_eq!(lines[1], "    word_t w;");
    assert_eq!(lines[2], "    color c;");
    assert_eq!(lines[3], "    enum e;");
    assert_eq!(lines[4], "    int a[10];");
    assert_eq!(lines[5], "    union value v;");
    assert_eq!(lines[6], "    unsigned int flag:3;");
    assert_eq!(lines[7], "    char tail[];");
    assert_eq!(lines[8], "} __attribute((__aligned__(16)));");
    let verbose = kinds.to_string_verbose(&dwarf, 1).unwrap();
    let lines: Vec<&str> = verbose.split('\n').collect();
    assert_eq!(lines[6], format!("    unsigned int flag:3;{}\t/* sz:    4 | off:    0 */", " ".repeat(24)));
    assert_eq!(lines[8], "");
    assert_eq!(lines[9], "    /* total size: 64 */");
    assert_eq!(lines[10], "} __attribute((__aligned__(16)));");

    let value = dwarf.lookup_type::<Union>("value".to_string()).unwrap().unwrap();
    assert_eq!(value.to_string(&dwarf).unwrap(), "union value {\n    char c;\n    word_t w;\n    int a[10];\n};");
    let color = dwarf.lookup_type::<Enum>("color".to_string()).unwrap().unwrap();
    assert_eq!(color.to_string(&dwarf).unwrap(), "color ;");

    let unit = dwarf.unit_context(&kinds.location).unwrap();
    let members = kinds.members(&dwarf).unwrap();
    assert_eq!(format_member(&dwarf, &unit, members[0], 1, 0, 0).unwrap(), "        word_t w;\n");
    let typ = members[3].get_type(&dwarf).unwrap();
    assert_eq!(format_type(&dwarf, &unit, "a", typ, 0, 0, 0, 0).unwrap(), "int a[10]");
    assert_eq!(format_type(&dwarf, &unit, "a", typ, 1, 0, 0, 0).unwrap(), "int [10]");
    let typ = members[4].get_type(&dwarf).unwrap();
    assert_eq!(format_type(&dwarf, &unit, "v", typ, 1, 0, 0, 0).unwrap(), "union value");
}

#[test]
fn enumerators_come_with_their_values() {
    let bytes = kinds_object();
    let dwarf = Dwarf::load(&bytes).unwrap();
    let color = dwarf.lookup_type::<Enum>("color".to_string()).unwrap().unwrap();
    let enumerators = color.enumerators(&dwarf).unwrap();
    let pairs: Vec<(&str, u64)> = enumerators.iter().map(|e| (e.name.as_str(), e.value)).collect();
    assert_eq!(pairs, vec![("RED", 0), ("GREEN", 1), ("BLUE", 7)]);
}

#[test]
fn compile_unit_tells_producer_and_language() {
    let bytes = kinds_object();
    let dwarf = Dwarf::load(&bytes).unwrap();
    let units = dwarf.get_units::<CompileUnit>().unwrap();
    assert_eq!(units.len(), 1);
    assert_eq!(units[0].producer(&dwarf).unwrap(), "GNU C17 13.2.0");
    assert_eq!(units[0].language(&dwarf).unwrap(), Language::C11);
    assert_eq!(units[0].name(&dwarf).unwrap(), "kinds.c");

    let plain = simple_object();
    let dwarf = Dwarf::load(&plain).unwrap();
    let units = dwarf.get_units::<CompileUnit>().unwrap();
    assert_eq!(units[0].producer(&dwarf).err().unwrap().kind(), ErrorKind::ProducerAttributeNotFound);
    assert_eq!(units[0].language(&dwarf).err().unwrap().kind(), ErrorKind::LanguageAttributeNotFound);
    assert_eq!(units[0].name(&dwarf).err().unwrap().kind(), ErrorKind::NameAttributeNotFound);
}

#[test]
fn member_location_as_expression_is_not_implemented() {
    let bytes = kinds_object();
    let dwarf = Dwarf::load(&bytes).unwrap();
    let located = dwarf.lookup_type::<Struct>("located".to_string()).unwrap().unwrap();
    let members = located.members(&dwarf).unwrap();
    assert_eq!(members[0].member_location(&dwarf).err().unwrap().kind(), ErrorKind::UnimplementedError);
    match members[0].member_location(&dwarf) {
        Err(Error::UnimplementedError(message)) => assert_eq!(message, "member_location with exprloc value"),
        other => panic!("an error for the form is owed, not {other:?}"),
    }
    assert_eq!(members[0].offset(&dwarf).err().unwrap().kind(), ErrorKind::UnimplementedError);
    assert_eq!(located.to_string(&dwarf).err().unwrap().kind(), ErrorKind::UnimplementedError);
    let kinds = dwarf.lookup_type::<Struct>("kinds".to_string()).unwrap().unwrap();
    let members = kinds.members(&dwarf).unwrap();
    assert_eq!(members[5].bit_size(&dwarf).unwrap(), 3);
    assert_eq!(members[5].offset(&dwarf).err().unwrap().kind(), ErrorKind::MemberLocationAttributeNotFound);
    let unit = dwarf.unit_context(&kinds.location).unwrap();
    assert_eq!(members[5].u_offset_in_struct(&unit).unwrap(), 0);
}

fn odd_object() -> Vec<u8> {
    let mut dwarf = DwarfWriter::new();
    let file_name = dwarf.line_strings.add("odd.c");
    let id = new_unit(&mut dwarf);
    let unit = dwarf.units.get_mut(id);
    let root = unit.root();
    unit.get_mut(root).set(gimli::DW_AT_name, AttributeValue::LineStringRef(file_name));
    unit.get_mut(root).set(gimli::DW_AT_language, AttributeValue::Language(gimli::DwLang(0x8001)));
    let int = base(unit, "int", 4);
    let circle = modifier(unit, gimli::DW_TAG_typedef, None);
    unit.get_mut(circle).set(gimli::DW_AT_name, text("circle_t"));
    unit.get_mut(circle).set(gimli::DW_AT_type, AttributeValue::UnitRef(circle));
    let function = unit.add(root, gimli::DW_TAG_subprogram);
    unit.get_mut(function).set(gimli::DW_AT_name, text("main"));
    let odd = structure(unit, Some("odd"), 8);
    member(unit, odd, "f", function, 0);
    let misread = unit.add(root, gimli::DW_TAG_structure_type);
    unit.get_mut(misread).set(gimli::DW_AT_name, text("misread"));
    unit.get_mut(misread).set(gimli::DW_AT_byte_size, text("eight"));
    let defined = structure(unit, Some("defined"), 4);
    unit.get_mut(defined).set(gimli::DW_AT_declaration, AttributeValue::Flag(false));
    let outer = structure(unit, Some("holder"), 12);
    member(unit, outer, "first", int, 0);
    let inner = unit.add(outer, gimli::DW_TAG_structure_type);
    unit.get_mut(inner).set(gimli::DW_AT_name, text("held"));
    unit.get_mut(inner).set(gimli::DW_AT_byte_size, AttributeValue::Udata(8));
    member(unit, inner, "x", int, 0);
    member(unit, inner, "y", int, 4);
    member(unit, outer, "second", inner, 4);
    let nameless = unit.add(outer, gimli::DW_TAG_member);
    unit.get_mut(nameless).set(gimli::DW_AT_type, AttributeValue::UnitRef(int));
    unit.get_mut(nameless).set(gimli::DW_AT_data_member_location, AttributeValue::Udata(8));
    let empty = modifier(unit, gimli::DW_TAG_subroutine_type, None);
    let after = unit.add(root, gimli::DW_TAG_formal_parameter);
    unit.get_mut(after).set(gimli::DW_AT_type, AttributeValue::UnitRef(int));
    let _ = empty;
    object_file(&mut dwarf)
}

#[test]
fn types_that_refer_to_each_other_in_a_circle_are_invalid() {
    let bytes = odd_object();
    let dwarf = Dwarf::load(&bytes).unwrap();
    let circle = dwarf.lookup_type::<Typedef>("circle_t".to_string()).unwrap().unwrap();
    assert!(matches!(circle.get_type(&dwarf).unwrap(), Type::Typedef(_)));
    assert_eq!(circle.byte_size(&dwarf).err().unwrap().kind(), ErrorKind::InvalidAttributeError);
}

#[test]
fn a_tag_that_is_no_type_is_not_handled() {
    let bytes = odd_object();
    let dwarf = Dwarf::load(&bytes).unwrap();
    let odd = dwarf.lookup_type::<Struct>("odd".to_string()).unwrap().unwrap();
    let members = odd.members(&dwarf).unwrap();
    assert_eq!(members[0].get_type(&dwarf).err().unwrap().kind(), ErrorKind::UnimplementedError);
    assert_eq!(odd.to_string(&dwarf).err().unwrap().kind(), ErrorKind::UnimplementedError);
    assert_eq!(dwat::types::entry_to_type(odd.location, 0x2e).err().unwrap().kind(), ErrorKind::UnimplementedError);
    assert!(matches!(dwat::types::entry_to_type(odd.location, 0x13).unwrap(), Type::Struct(_)));
    assert!(matches!(dwat::types::entry_to_type(odd.location, 0x0f).unwrap(), Type::Pointer(_)));
    assert_eq!(dwat::types::entry_to_type(odd.location, 0x17).unwrap(), Type::Union(Union::new(odd.location)));
}

#[test]
fn an_attribute_of_an_unexpected_form_is_invalid() {
    let bytes = odd_object();
    let dwarf = Dwarf::load(&bytes).unwrap();
    let misread = dwarf.lookup_type::<Struct>("misread".to_string()).unwrap().unwrap();
    assert_eq!(misread.byte_size(&dwarf).err().unwrap().kind(), ErrorKind::InvalidAttributeError);
}

#[test]
fn a_declaration_flag_that_is_not_set_does_not_hide_a_struct() {
    let bytes = odd_object();
    let dwarf = Dwarf::load(&bytes).unwrap();
    let defined = dwarf.lookup_type::<Struct>("defined".to_string()).unwrap();
    assert!(defined.is_some());
    assert_eq!(defined.unwrap().byte_size(&dwarf).unwrap(), 4);
}

#[test]
fn members_are_the_children_one_level_down() {
    let bytes = odd_object();
    let dwarf = Dwarf::load(&bytes).unwrap();
    let holder = dwarf.lookup_type::<Struct>("holder".to_string()).unwrap().unwrap();
    let members = holder.members(&dwarf).unwrap();
    assert_eq!(members.len(), 3);
    assert_eq!(members[0].name(&dwarf).unwrap(), "first");
    assert_eq!(members[1].name(&dwarf).unwrap(), "second");
    assert_eq!(members[2].name(&dwarf).err().unwrap().kind(), ErrorKind::NameAttributeNotFound);
    assert_eq!(
        holder.to_string(&dwarf).unwrap(),
        "struct holder {\n    int first;\n    struct held second;\n    int ;\n};"
    );
    let held = dwarf.lookup_type::<Struct>("held".to_string()).unwrap().unwrap();
    assert_eq!(held.members(&dwarf).unwrap().len(), 2);
    let unit = dwarf.unit_context(&holder.location).unwrap();
    let key = holder.u_hash_key(&dwarf, &unit, "holder".to_string()).unwrap();
    assert_eq!(key.name, "holder");
    assert_eq!(key.byte_size, 12);
    assert_eq!(key.members, vec![("first".to_string(), 0), ("second".to_string(), 4), ("".to_string(), 8)]);
    // a struct whose size cannot be read has no key, and the map fails with it
    let shapes = dwarf.get_fg_named_structs_map();
    assert_eq!(shapes.err().unwrap().kind(), ErrorKind::InvalidAttributeError);
    assert_eq!(dwarf.get_named_types_map::<Struct>().unwrap().len(), 5);
    let subroutines = dwarf.get_units::<Subroutine>().unwrap();
    assert_eq!(subroutines.len(), 1);
    assert!(subroutines[0].get_params(&dwarf).unwrap().is_empty());
}

#[test]
fn names_are_read_from_the_line_string_section() {
    let bytes = odd_object();
    let dwarf = Dwarf::load(&bytes).unwrap();
    let units = dwarf.get_units::<CompileUnit>().unwrap();
    assert_eq!(units[0].name(&dwarf).unwrap(), "odd.c");
    assert_eq!(units[0].language(&dwarf).unwrap(), Language::Vendor(0x8001));
    let owned = OwnedDwarf::load(&bytes).unwrap();
    assert_eq!(units[0].name(&owned).unwrap(), "odd.c");
}

#[test]
fn entry_context_gives_the_tag_of_the_die() {
    let bytes = simple_object();
    let dwarf = Dwarf::load(&bytes).unwrap();
    let found = dwarf.lookup_type::<Struct>("simple".to_string()).unwrap().unwrap();
    assert_eq!(dwarf.entry_context(&found.location).unwrap(), 0x13);
    assert_eq!(Struct::tag(), 0x13);
    let unit = dwarf.unit_context(&found.location).unwrap();
    assert_eq!(unit.entry_context(&found.location).unwrap(), 0x13);
    assert_eq!(unit.address_size(), 8);
    let members = found.members(&dwarf).unwrap();
    assert_eq!(dwarf.entry_context(&members[0].location).unwrap(), 0x0d);
    let nowhere = DwarfUnit { die_offset: found.location.die_offset, entry_offset: 1 << 20 };
    assert_eq!(dwarf.entry_context(&nowhere).err().unwrap().kind(), ErrorKind::DIEError);
    let nowhere = DwarfUnit { die_offset: 1 << 20, entry_offset: 0 };
    assert_eq!(dwarf.entry_context(&nowhere).err().unwrap().kind(), ErrorKind::CUError);
}

#[test]
fn a_pass_hands_out_positions_in_order_and_may_end_early() {
    let bytes = two_units_object();
    let dwarf = Dwarf::load(&bytes).unwrap();
    let all = tagged_entries(&dwarf, Struct::tag());
    assert_eq!(all.len(), 5);
    let mut pass = for_each_tagged_entry(&dwarf, Struct::tag());
    assert_eq!(pass.next(), Some(all[0]));
    assert_eq!(pass.next(), Some(all[1]));
    let mut pass = for_each_tagged_entry(&dwarf, Struct::tag());
    let mut seen = Vec::new();
    while let Some(location) = pass.next() {
        seen.push(location);
    }
    assert_eq!(seen, all);
    assert_eq!(pass.next(), None);
    assert!(all[0].die_offset < all[4].die_offset);
    let units = dwarf.get_units::<Struct>().unwrap();
    let locations: Vec<DwarfUnit> = units.iter().map(|s| s.location).collect();
    assert_eq!(locations, all);
    let mut none = for_each_tagged_entry(&dwarf, Pointer::tag());
    assert_eq!(none.next(), None);
}

fn signed_object() -> Vec<u8> {
    let mut dwarf = DwarfWriter::new();
    let id = new_unit(&mut dwarf);
    let unit = dwarf.units.get_mut(id);
    let root = unit.root();
    let int = base(unit, "int", 4);
    let sign = modifier(unit, gimli::DW_TAG_enumeration_type, Some(int));
    unit.get_mut(sign).set(gimli::DW_AT_name, text("sign"));
    for (name, value) in [("NEG", -1i64), ("ZERO", 0), ("ONE", 1), ("LOW", i64::MIN)] {
        let e = unit.add(sign, gimli::DW_TAG_enumerator);
        unit.get_mut(e).set(gimli::DW_AT_name, text(name));
        unit.get_mut(e).set(gimli::DW_AT_const_value, AttributeValue::Sdata(value));
    }
    let big = unit.add(sign, gimli::DW_TAG_enumerator);
    unit.get_mut(big).set(gimli::DW_AT_name, text("BIG"));
    unit.get_mut(big).set(gimli::DW_AT_const_value, AttributeValue::Data1(0xff));
    let bare = unit.add(sign, gimli::DW_TAG_enumerator);
    unit.get_mut(bare).set(gimli::DW_AT_name, text("BARE"));
    let last = unit.add(sign, gimli::DW_TAG_enumerator);
    unit.get_mut(last).set(gimli::DW_AT_name, text("LAST"));
    unit.get_mut(last).set(gimli::DW_AT_const_value, AttributeValue::Udata(u64::MAX));
    let none = modifier(unit, gimli::DW_TAG_array_type, Some(int));
    let range = unit.add(none, gimli::DW_TAG_subrange_type);
    unit.get_mut(range).set(gimli::DW_AT_upper_bound, AttributeValue::Sdata(-1));
    let below = modifier(unit, gimli::DW_TAG_array_type, Some(int));
    let range = unit.add(below, gimli::DW_TAG_subrange_type);
    unit.get_mut(range).set(gimli::DW_AT_upper_bound, AttributeValue::Sdata(-2));
    let top = modifier(unit, gimli::DW_TAG_array_type, Some(int));
    let range = unit.add(top, gimli::DW_TAG_subrange_type);
    unit.get_mut(range).set(gimli::DW_AT_upper_bound, AttributeValue::Data8(u64::MAX));
    let some = modifier(unit, gimli::DW_TAG_array_type, Some(int));
    let range = unit.add(some, gimli::DW_TAG_subrange_type);
    unit.get_mut(range).set(gimli::DW_AT_upper_bound, AttributeValue::Sdata(2));
    let s = structure(unit, Some("tail"), 4);
    member(unit, s, "len", int, 0);
    member(unit, s, "items", none, 4);
    let _ = root;
    object_file(&mut dwarf)
}

#[test]
fn negative_enumerators_are_kept() {
    let bytes = signed_object();
    let dwarf = Dwarf::load(&bytes).unwrap();
    let sign = dwarf.lookup_type::<Enum>("sign".to_string()).unwrap().unwrap();
    let enumerators = sign.enumerators(&dwarf).unwrap();
    let pairs: Vec<(&str, u64)> = enumerators.iter().map(|e| (e.name.as_str(), e.value)).collect();
    assert_eq!(
        pairs,
        vec![
            ("NEG", -1i64 as u64),
            ("ZERO", 0),
            ("ONE", 1),
            ("LOW", 1u64 << 63),
            ("BIG", 255),
            ("LAST", u64::MAX),
        ]
    );
    assert_eq!(pairs[0].1, u64::MAX);
    assert_eq!(dwat::types::same_bits(-1), u64::MAX);
    assert_eq!(dwat::types::same_bits(-2), u64::MAX - 1);
    assert_eq!(dwat::types::same_bits(i64::MIN), 1u64 << 63);
    assert_eq!(dwat::types::same_bits(i64::MAX), i64::MAX as u64);
    assert_eq!(dwat::types::same_bits(0), 0);
}

#[test]
fn an_upper_bound_of_minus_one_stands_for_no_items() {
    let bytes = signed_object();
    let dwarf = Dwarf::load(&bytes).unwrap();
    let arrays = dwarf.get_units::<Array>().unwrap();
    assert_eq!(arrays.len(), 4);
    assert_eq!(arrays[0].get_bound(&dwarf).unwrap(), 0);
    assert_eq!(arrays[0].byte_size(&dwarf).unwrap(), 0);
    assert_eq!(arrays[1].get_bound(&dwarf).err().unwrap().kind(), ErrorKind::InvalidAttributeError);
    assert_eq!(arrays[2].get_bound(&dwarf).unwrap(), 0);
    assert_eq!(arrays[3].get_bound(&dwarf).unwrap(), 3);
    assert_eq!(arrays[3].byte_size(&dwarf).unwrap(), 12);
    let tail = dwarf.lookup_type::<Struct>("tail".to_string()).unwrap().unwrap();
    assert_eq!(tail.to_string(&dwarf).unwrap(), "struct tail {\n    int len;\n    int items[];\n};");
}

#[test]
fn messages_name_the_position() {
    let bytes = simple_object();
    let dwarf = Dwarf::load(&bytes).unwrap();
    let found = dwarf.lookup_type::<Struct>("simple".to_string()).unwrap().unwrap();
    let no_entry = Struct::new(DwarfUnit { die_offset: found.location.die_offset, entry_offset: 1048576 });
    match no_entry.byte_size(&dwarf) {
        Err(Error::DIEError(message)) => assert_eq!(message, "Failed to find DIE at offset 1048576"),
        other => panic!("a DIE error is owed, not {other:?}"),
    }
    match no_entry.members(&dwarf) {
        Err(Error::DIEError(message)) => assert_eq!(message, "Failed to seek to DIE at offset 1048576"),
        other => panic!("a DIE error is owed, not {other:?}"),
    }
    match dwarf.entry_context(&no_entry.location) {
        Err(Error::DIEError(message)) => assert_eq!(message, "Failed to find DIE at offset 1048576"),
        other => panic!("a DIE error is owed, not {other:?}"),
    }
    let no_unit = Struct::new(DwarfUnit { die_offset: 2097152, entry_offset: found.location.entry_offset });
    match no_unit.byte_size(&dwarf) {
        Err(Error::CUError(message)) => {
            assert!(message.starts_with("Failed to seek to UnitHeader at offset 2097152, error: "));
            assert!(message.len() > "Failed to seek to UnitHeader at offset 2097152, error: ".len());
        }
        other => panic!("a unit error is owed, not {other:?}"),
    }
    match Error::unit_not_found(7, "no data") {
        Error::CUError(message) => assert_eq!(message, "Failed to seek to UnitHeader at offset 7, error: no data"),
        other => panic!("a unit error is owed, not {other:?}"),
    }
    let unit = dwarf.unit_context(&found.location).unwrap();
    assert!(unit.length() > 0);
    assert_eq!(unit.length(), bytes_of_debug_info(&bytes));
}

fn bytes_of_debug_info(bytes: &[u8]) -> usize {
    let file = object::File::parse(bytes).unwrap();
    file.section_by_name(".debug_info").unwrap().data().unwrap().len()
}

fn shapes_object() -> Vec<u8> {
    let mut dwarf = DwarfWriter::new();
    for round in 0..6u64 {
        let id = new_unit(&mut dwarf);
        let unit = dwarf.units.get_mut(id);
        let int = base(unit, "int", 4);
        let shape = round % 3;
        let node = structure(unit, Some("node"), 4 * (shape + 1));
        for field in 0..=shape {
            member(unit, node, ["a", "b", "c"][field as usize], int, 4 * field);
        }
        let same = structure(unit, Some("same"), 4);
        member(unit, same, "x", int, 0);
        let moved = structure(unit, Some("moved"), 8);
        member(unit, moved, "x", int, if round == 5 { 4 } else { 0 });
    }
    object_file(&mut dwarf)
}

#[test]
fn every_shape_of_a_name_has_one_entry() {
    let bytes = shapes_object();
    let dwarf = Dwarf::load(&bytes).unwrap();
    let list = dwarf.get_named_types::<Struct>().unwrap();
    assert_eq!(list.len(), 18);
    let names = dwarf.get_named_types_map::<Struct>().unwrap();
    assert_eq!(names.len(), 3);
    for (name, found) in names.iter() {
        let last = list.iter().rev().find(|(listed, _)| listed == name).unwrap();
        assert_eq!(*found, last.1);
    }
    let shapes = dwarf.get_fg_named_structs_map().unwrap();
    assert_eq!(shapes.len(), 6);
    let count = |name: &str| shapes.iter().filter(|(key, _)| key.name == name).count();
    assert_eq!(count("node"), 3);
    assert_eq!(count("same"), 1);
    assert_eq!(count("moved"), 2);
    for (key, found) in shapes.iter() {
        let unit = dwarf.unit_context(&found.location).unwrap();
        let again = found.u_hash_key(&dwarf, &unit, key.name.clone()).unwrap();
        assert!(dwat::index::same_key(key, &again));
        // the struct kept for a key is the last in the list that has it
        let last = list
            .iter()
            .rev()
            .find(|(name, listed)| {
                let unit = dwarf.unit_context(&listed.location).unwrap();
                dwat::index::same_key(key, &listed.u_hash_key(&dwarf, &unit, name.clone()).unwrap())
            })
            .unwrap();
        assert_eq!(*found, last.1);
    }
}
