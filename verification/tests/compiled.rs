use dwat::prelude::{DwarfLookups, HasMembers, InnerType, NamedType};
use dwat::{CompileUnit, Dwarf, Language, OwnedDwarf, Struct, Type};

// An x86_64 ELF file with the debug sections that gcc writes with -gdwarf-5
// for these declarations:
//
//     struct simple { unsigned long long s; };
//     struct padded { unsigned int ui; unsigned long long ull; };
//     struct packed { unsigned int ui; unsigned long long ull; } __attribute__((packed));
//     struct outer { int a; struct { int b; int c; } s; int d; };
//     struct cb { int (*fp)(int, char*); };
//
// and one variable of each.
const COMPILED: [u8; 2128] = [
    127, 69, 76, 70, 2, 1, 1, 0, 0, 0, 0, 0, 0, 0, 0, 0, 2, 0, 62, 0, 1, 0, 0, 0,
    0, 16, 64, 0, 0, 0, 0, 0, 64, 0, 0, 0, 0, 0, 0, 0, 144, 5, 0, 0, 0, 0, 0, 0,
    0, 0, 0, 0, 64, 0, 56, 0, 4, 0, 64, 0, 11, 0, 10, 0, 1, 0, 0, 0, 4, 0, 0, 0,
    0, 0, 0, 0, 0, 0, 0, 0, 0, 0, 64, 0, 0, 0, 0, 0, 0, 0, 64, 0, 0, 0, 0, 0,
    32, 1, 0, 0, 0, 0, 0, 0, 32, 1, 0, 0, 0, 0, 0, 0, 0, 16, 0, 0, 0, 0, 0, 0,
    1, 0, 0, 0, 5, 0, 0, 0, 32, 1, 0, 0, 0, 0, 0, 0, 0, 16, 64, 0, 0, 0, 0, 0,
    0, 0, 0, 0, 0, 0, 0, 0, 0, 0, 0, 0, 0, 0, 0, 0, 0, 0, 0, 0, 0, 0, 0, 0,
    0, 16, 0, 0, 0, 0, 0, 0, 1, 0, 0, 0, 6, 0, 0, 0, 32, 1, 0, 0, 0, 0, 0, 0,
    0, 32, 64, 0, 0, 0, 0, 0, 0, 0, 0, 0, 0, 0, 0, 0, 0, 0, 0, 0, 0, 0, 0, 0,
    0, 0, 0, 0, 0, 0, 0, 0, 0, 16, 0, 0, 0, 0, 0, 0, 81, 229, 116, 100, 6, 0, 0, 0,
    0, 0, 0, 0, 0, 0, 0, 0, 0, 0, 0, 0, 0, 0, 0, 0, 0, 0, 0, 0, 0, 0, 0, 0,
    0, 0, 0, 0, 0, 0, 0, 0, 0, 0, 0, 0, 0, 0, 0, 0, 8, 0, 0, 0, 0, 0, 0, 0,
    44, 0, 0, 0, 2, 0, 0, 0, 0, 0, 8, 0, 0, 0, 0, 0, 0, 16, 64, 0, 0, 0, 0, 0,
    7, 0, 0, 0, 0, 0, 0, 0, 0, 0, 0, 0, 0, 0, 0, 0, 0, 0, 0, 0, 0, 0, 0, 0,
    154, 1, 0, 0, 5, 0, 1, 8, 0, 0, 0, 0, 7, 7, 0, 0, 0, 29, 0, 0, 0, 0, 6, 0,
    0, 0, 0, 16, 64, 0, 0, 0, 0, 0, 7, 0, 0, 0, 0, 0, 0, 0, 0, 0, 0, 0, 3, 138,
    0, 0, 0, 8, 1, 68, 0, 0, 0, 1, 115, 0, 1, 36, 68, 0, 0, 0, 0, 0, 4, 8, 7, 103,
    0, 0, 0, 3, 126, 0, 0, 0, 16, 2, 110, 0, 0, 0, 1, 117, 105, 0, 2, 30, 110, 0, 0, 0,
    0, 1, 117, 108, 108, 0, 2, 53, 68, 0, 0, 0, 8, 0, 4, 4, 7, 113, 0, 0, 0, 3, 0, 0,
    0, 0, 12, 3, 152, 0, 0, 0, 1, 117, 105, 0, 3, 30, 110, 0, 0, 0, 0, 1, 117, 108, 108, 0,
    3, 53, 68, 0, 0, 0, 4, 0, 8, 8, 1, 4, 23, 182, 0, 0, 0, 1, 98, 0, 4, 36, 182, 0,
    0, 0, 0, 1, 99, 0, 4, 43, 182, 0, 0, 0, 4, 0, 9, 4, 5, 105, 110, 116, 0, 3, 97, 0,
    0, 0, 16, 4, 231, 0, 0, 0, 1, 97, 0, 4, 20, 182, 0, 0, 0, 0, 1, 115, 0, 4, 48, 152,
    0, 0, 0, 4, 1, 100, 0, 4, 55, 182, 0, 0, 0, 12, 0, 10, 99, 98, 0, 8, 1, 5, 8, 255,
    0, 0, 0, 1, 102, 112, 0, 5, 19, 31, 1, 0, 0, 0, 0, 11, 182, 0, 0, 0, 19, 1, 0, 0,
    5, 182, 0, 0, 0, 5, 19, 1, 0, 0, 0, 6, 24, 1, 0, 0, 4, 1, 6, 133, 0, 0, 0, 6,
    255, 0, 0, 0, 2, 118, 49, 0, 15, 46, 0, 0, 0, 9, 3, 0, 32, 64, 0, 0, 0, 0, 0, 2,
    118, 50, 0, 33, 75, 0, 0, 0, 9, 3, 16, 32, 64, 0, 0, 0, 0, 0, 2, 118, 51, 0, 51, 117,
    0, 0, 0, 9, 3, 32, 32, 64, 0, 0, 0, 0, 0, 2, 118, 52, 0, 68, 189, 0, 0, 0, 9, 3,
    48, 32, 64, 0, 0, 0, 0, 0, 2, 118, 53, 0, 82, 231, 0, 0, 0, 9, 3, 64, 32, 64, 0, 0,
    0, 0, 0, 12, 145, 0, 0, 0, 1, 7, 6, 0, 16, 64, 0, 0, 0, 0, 0, 7, 0, 0, 0, 0,
    0, 0, 0, 1, 156, 0, 1, 13, 0, 3, 8, 58, 33, 1, 59, 11, 57, 11, 73, 19, 56, 11, 0, 0,
    2, 52, 0, 3, 8, 58, 33, 1, 59, 33, 6, 57, 11, 73, 19, 63, 25, 2, 24, 0, 0, 3, 19, 1,
    3, 14, 11, 11, 58, 33, 1, 59, 11, 57, 33, 8, 1, 19, 0, 0, 4, 36, 0, 11, 11, 62, 11, 3,
    14, 0, 0, 5, 5, 0, 73, 19, 0, 0, 6, 15, 0, 11, 33, 8, 73, 19, 0, 0, 7, 17, 1, 37,
    14, 19, 11, 3, 31, 27, 31, 17, 1, 18, 7, 16, 23, 0, 0, 8, 19, 1, 11, 11, 58, 11, 59, 11,
    57, 11, 1, 19, 0, 0, 9, 36, 0, 11, 11, 62, 11, 3, 8, 0, 0, 10, 19, 1, 3, 8, 11, 11,
    58, 11, 59, 11, 57, 11, 1, 19, 0, 0, 11, 21, 1, 39, 25, 73, 19, 1, 19, 0, 0, 12, 46, 0,
    63, 25, 3, 14, 58, 11, 59, 11, 57, 11, 39, 25, 17, 1, 18, 7, 64, 24, 122, 25, 0, 0, 0, 72,
    0, 0, 0, 5, 0, 8, 0, 42, 0, 0, 0, 1, 1, 1, 251, 14, 13, 0, 1, 1, 1, 1, 0, 0,
    0, 1, 0, 0, 1, 1, 1, 31, 1, 6, 0, 0, 0, 2, 1, 31, 2, 15, 2, 0, 0, 0, 0, 0,
    0, 0, 0, 0, 0, 5, 19, 0, 9, 2, 0, 16, 64, 0, 0, 0, 0, 0, 24, 5, 20, 74, 2, 3,
    0, 1, 1, 0, 0, 0, 0, 0, 20, 0, 0, 0, 255, 255, 255, 255, 1, 0, 1, 120, 16, 12, 7, 8,
    144, 1, 0, 0, 0, 0, 0, 0, 36, 0, 0, 0, 0, 0, 0, 0, 0, 16, 64, 0, 0, 0, 0, 0,
    7, 0, 0, 0, 0, 0, 0, 0, 65, 14, 16, 134, 2, 67, 13, 6, 66, 12, 7, 8, 0, 0, 0, 0,
    112, 97, 99, 107, 101, 100, 0, 71, 78, 85, 32, 67, 49, 55, 32, 49, 50, 46, 50, 46, 48, 32, 45, 109,
    116, 117, 110, 101, 61, 103, 101, 110, 101, 114, 105, 99, 32, 45, 109, 97, 114, 99, 104, 61, 120, 56, 54, 45,
    54, 52, 32, 45, 103, 100, 119, 97, 114, 102, 45, 53, 32, 45, 79, 48, 32, 45, 102, 110, 111, 45, 97, 115,
    121, 110, 99, 104, 114, 111, 110, 111, 117, 115, 45, 117, 110, 119, 105, 110, 100, 45, 116, 97, 98, 108, 101, 115,
    0, 111, 117, 116, 101, 114, 0, 108, 111, 110, 103, 32, 108, 111, 110, 103, 32, 117, 110, 115, 105, 103, 110, 101,
    100, 32, 105, 110, 116, 0, 112, 97, 100, 100, 101, 100, 0, 99, 104, 97, 114, 0, 115, 105, 109, 112, 108, 101,
    0, 95, 115, 116, 97, 114, 116, 0, 97, 108, 108, 46, 99, 0, 47, 116, 109, 112, 47, 102, 120, 0, 0, 0,
    0, 0, 0, 0, 0, 0, 0, 0, 0, 0, 0, 0, 0, 0, 0, 0, 0, 0, 0, 0, 0, 0, 0, 0,
    1, 0, 0, 0, 4, 0, 241, 255, 0, 0, 0, 0, 0, 0, 0, 0, 0, 0, 0, 0, 0, 0, 0, 0,
    0, 97, 108, 108, 46, 99, 0, 0, 46, 115, 121, 109, 116, 97, 98, 0, 46, 115, 116, 114, 116, 97, 98, 0,
    46, 115, 104, 115, 116, 114, 116, 97, 98, 0, 46, 100, 101, 98, 117, 103, 95, 97, 114, 97, 110, 103, 101, 115,
    0, 46, 100, 101, 98, 117, 103, 95, 105, 110, 102, 111, 0, 46, 100, 101, 98, 117, 103, 95, 97, 98, 98, 114,
    101, 118, 0, 46, 100, 101, 98, 117, 103, 95, 108, 105, 110, 101, 0, 46, 100, 101, 98, 117, 103, 95, 102, 114,
    97, 109, 101, 0, 46, 100, 101, 98, 117, 103, 95, 115, 116, 114, 0, 46, 100, 101, 98, 117, 103, 95, 108, 105,
    110, 101, 95, 115, 116, 114, 0, 0, 0, 0, 0, 0, 0, 0, 0, 0, 0, 0, 0, 0, 0, 0, 0, 0,
    0, 0, 0, 0, 0, 0, 0, 0, 0, 0, 0, 0, 0, 0, 0, 0, 0, 0, 0, 0, 0, 0, 0, 0,
    0, 0, 0, 0, 0, 0, 0, 0, 0, 0, 0, 0, 0, 0, 0, 0, 0, 0, 0, 0, 0, 0, 0, 0,
    27, 0, 0, 0, 1, 0, 0, 0, 0, 0, 0, 0, 0, 0, 0, 0, 0, 0, 0, 0, 0, 0, 0, 0,
    32, 1, 0, 0, 0, 0, 0, 0, 48, 0, 0, 0, 0, 0, 0, 0, 0, 0, 0, 0, 0, 0, 0, 0,
    1, 0, 0, 0, 0, 0, 0, 0, 0, 0, 0, 0, 0, 0, 0, 0, 42, 0, 0, 0, 1, 0, 0, 0,
    0, 0, 0, 0, 0, 0, 0, 0, 0, 0, 0, 0, 0, 0, 0, 0, 80, 1, 0, 0, 0, 0, 0, 0,
    158, 1, 0, 0, 0, 0, 0, 0, 0, 0, 0, 0, 0, 0, 0, 0, 1, 0, 0, 0, 0, 0, 0, 0,
    0, 0, 0, 0, 0, 0, 0, 0, 54, 0, 0, 0, 1, 0, 0, 0, 0, 0, 0, 0, 0, 0, 0, 0,
    0, 0, 0, 0, 0, 0, 0, 0, 238, 2, 0, 0, 0, 0, 0, 0, 185, 0, 0, 0, 0, 0, 0, 0,
    0, 0, 0, 0, 0, 0, 0, 0, 1, 0, 0, 0, 0, 0, 0, 0, 0, 0, 0, 0, 0, 0, 0, 0,
    68, 0, 0, 0, 1, 0, 0, 0, 0, 0, 0, 0, 0, 0, 0, 0, 0, 0, 0, 0, 0, 0, 0, 0,
    167, 3, 0, 0, 0, 0, 0, 0, 76, 0, 0, 0, 0, 0, 0, 0, 0, 0, 0, 0, 0, 0, 0, 0,
    1, 0, 0, 0, 0, 0, 0, 0, 0, 0, 0, 0, 0, 0, 0, 0, 80, 0, 0, 0, 1, 0, 0, 0,
    0, 0, 0, 0, 0, 0, 0, 0, 0, 0, 0, 0, 0, 0, 0, 0, 248, 3, 0, 0, 0, 0, 0, 0,
    64, 0, 0, 0, 0, 0, 0, 0, 0, 0, 0, 0, 0, 0, 0, 0, 8, 0, 0, 0, 0, 0, 0, 0,
    0, 0, 0, 0, 0, 0, 0, 0, 93, 0, 0, 0, 1, 0, 0, 0, 48, 0, 0, 0, 0, 0, 0, 0,
    0, 0, 0, 0, 0, 0, 0, 0, 56, 4, 0, 0, 0, 0, 0, 0, 152, 0, 0, 0, 0, 0, 0, 0,
    0, 0, 0, 0, 0, 0, 0, 0, 1, 0, 0, 0, 0, 0, 0, 0, 1, 0, 0, 0, 0, 0, 0, 0,
    104, 0, 0, 0, 1, 0, 0, 0, 48, 0, 0, 0, 0, 0, 0, 0, 0, 0, 0, 0, 0, 0, 0, 0,
    208, 4, 0, 0, 0, 0, 0, 0, 14, 0, 0, 0, 0, 0, 0, 0, 0, 0, 0, 0, 0, 0, 0, 0,
    1, 0, 0, 0, 0, 0, 0, 0, 1, 0, 0, 0, 0, 0, 0, 0, 1, 0, 0, 0, 2, 0, 0, 0,
    0, 0, 0, 0, 0, 0, 0, 0, 0, 0, 0, 0, 0, 0, 0, 0, 224, 4, 0, 0, 0, 0, 0, 0,
    48, 0, 0, 0, 0, 0, 0, 0, 9, 0, 0, 0, 2, 0, 0, 0, 8, 0, 0, 0, 0, 0, 0, 0,
    24, 0, 0, 0, 0, 0, 0, 0, 9, 0, 0, 0, 3, 0, 0, 0, 0, 0, 0, 0, 0, 0, 0, 0,
    0, 0, 0, 0, 0, 0, 0, 0, 16, 5, 0, 0, 0, 0, 0, 0, 7, 0, 0, 0, 0, 0, 0, 0,
    0, 0, 0, 0, 0, 0, 0, 0, 1, 0, 0, 0, 0, 0, 0, 0, 0, 0, 0, 0, 0, 0, 0, 0,
    17, 0, 0, 0, 3, 0, 0, 0, 0, 0, 0, 0, 0, 0, 0, 0, 0, 0, 0, 0, 0, 0, 0, 0,
    23, 5, 0, 0, 0, 0, 0, 0, 120, 0, 0, 0, 0, 0, 0, 0, 0, 0, 0, 0, 0, 0, 0, 0,
    1, 0, 0, 0, 0, 0, 0, 0, 0, 0, 0, 0, 0, 0, 0, 0,
];

#[test]
fn compiled_simple_struct() {
    let dwarf = Dwarf::load(&COMPILED).unwrap();
    let found = dwarf.lookup_type::<Struct>("simple".to_string()).unwrap().unwrap();
    let members = found.members(&dwarf).unwrap();
    assert_eq!(members.len(), 1);
    assert_eq!(found.byte_size(&dwarf).unwrap(), 8);
    assert_eq!(members[0].offset(&dwarf).unwrap(), 0);
    assert_eq!(members[0].name(&dwarf).unwrap(), "s");
    assert_eq!(found.to_string(&dwarf).unwrap(), "struct simple {\n    long long unsigned int s;\n};");
}

#[test]
fn compiled_padded_struct() {
    let dwarf = Dwarf::load(&COMPILED).unwrap();
    let found = dwarf.lookup_type::<Struct>("padded".to_string()).unwrap().unwrap();
    let members = found.members(&dwarf).unwrap();
    assert_eq!(found.byte_size(&dwarf).unwrap(), 16);
    assert_eq!(members[0].offset(&dwarf).unwrap(), 0);
    assert_eq!(members[1].offset(&dwarf).unwrap(), 8);
    let stats = found.alignment_stats(&dwarf).unwrap();
    assert_eq!(stats.nr_holes, 1);
    assert_eq!(stats.hole_positions, vec![(1, 4)]);
    assert_eq!(stats.padding, 0);
    assert_eq!(stats.sum_member_size + stats.sum_holes + stats.padding, 16);
}

#[test]
fn compiled_packed_struct() {
    let dwarf = Dwarf::load(&COMPILED).unwrap();
    let found = dwarf.lookup_type::<Struct>("packed".to_string()).unwrap().unwrap();
    let members = found.members(&dwarf).unwrap();
    assert_eq!(found.byte_size(&dwarf).unwrap(), 12);
    assert_eq!(members[1].offset(&dwarf).unwrap(), 4);
    let stats = found.alignment_stats(&dwarf).unwrap();
    assert_eq!(stats.nr_holes, 0);
}

#[test]
fn compiled_nested_struct_prints_with_indentation() {
    let dwarf = Dwarf::load(&COMPILED).unwrap();
    let found = dwarf.lookup_type::<Struct>("outer".to_string()).unwrap().unwrap();
    assert_eq!(
        found.to_string(&dwarf).unwrap(),
        "struct outer {\n    int a;\n    struct {\n        int b;\n        int c;\n    } s;\n    int d;\n};"
    );
}

#[test]
fn compiled_function_pointer_prints_in_c_syntax() {
    let dwarf = OwnedDwarf::load(&COMPILED).unwrap();
    let found = dwarf.lookup_type::<Struct>("cb".to_string()).unwrap().unwrap();
    assert_eq!(found.to_string(&dwarf).unwrap(), "struct cb {\n    int (*fp)(int, char *);\n};");
    let members = found.members(&dwarf).unwrap();
    assert!(matches!(members[0].get_type(&dwarf).unwrap(), Type::Pointer(_)));
    assert_eq!(members[0].byte_size(&dwarf).unwrap(), 8);
}

#[test]
fn compiled_structs_are_all_indexed() {
    let dwarf = Dwarf::load(&COMPILED).unwrap();
    let list = dwarf.get_named_types::<Struct>().unwrap();
    let names: Vec<&str> = list.iter().map(|(name, _)| name.as_str()).collect();
    assert_eq!(names, vec!["simple", "padded", "packed", "outer", "cb"]);
    assert_eq!(dwarf.get_named_types_map::<Struct>().unwrap().len(), 5);
    assert_eq!(dwarf.get_fg_named_structs_map().unwrap().len(), 5);
    assert_eq!(dwarf.get_units::<Struct>().unwrap().len(), 6);
    let units = dwarf.get_units::<CompileUnit>().unwrap();
    assert_eq!(units.len(), 1);
    assert!(units[0].producer(&dwarf).unwrap().starts_with("GNU C"));
    assert!(matches!(units[0].language(&dwarf).unwrap(), Language::C11 | Language::C99 | Language::C89 | Language::C));
    assert_eq!(units[0].name(&dwarf).unwrap(), "all.c");
}
