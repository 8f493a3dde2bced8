use dwat::index::same_key;
use dwat::text::{decimal, ends_with, last_line_len, pad_left, push_indent, push_spaces};
use dwat::{AlignmentStats, ErrorKind, MemberLayout, StructHashKey};

fn at(offset: usize, size: usize) -> MemberLayout {
    MemberLayout { offset, size, item_size: size }
}

#[test]
fn empty_struct_is_all_padding() {
    let stats = AlignmentStats::from_layout(&vec![], 4).unwrap();
    assert_eq!(stats.nr_holes, 0);
    assert_eq!(stats.sum_holes, 0);
    assert_eq!(stats.sum_member_size, 0);
    assert_eq!(stats.padding, 4);
    assert_eq!(stats.nr_unnat_alignment, 0);
    assert!(stats.hole_positions.is_empty());
}

#[test]
fn holes_and_padding_fill_the_struct() {
    // char, int, char, long long in a struct of 24 bytes
    let members = vec![at(0, 1), at(4, 4), at(8, 1), at(16, 8)];
    let stats = AlignmentStats::from_layout(&members, 24).unwrap();
    assert_eq!(stats.nr_holes, 2);
    assert_eq!(stats.hole_positions, vec![(1, 3), (3, 7)]);
    assert_eq!(stats.sum_holes, 10);
    assert_eq!(stats.sum_member_size, 14);
    assert_eq!(stats.padding, 0);
    assert_eq!(stats.nr_unnat_alignment, 0);
    assert_eq!(stats.sum_member_size + stats.sum_holes + stats.padding, 24);

    let members = vec![at(0, 8), at(8, 1)];
    let stats = AlignmentStats::from_layout(&members, 16).unwrap();
    assert_eq!(stats.nr_holes, 0);
    assert_eq!(stats.padding, 7);
    assert_eq!(stats.sum_member_size + stats.sum_holes + stats.padding, 16);
}

#[test]
fn first_member_only_seeds_the_pass() {
    // the first member is held against nothing, whatever its offset
    let members = vec![at(4, 4), at(8, 4)];
    let stats = AlignmentStats::from_layout(&members, 12).unwrap();
    assert_eq!(stats.nr_holes, 0);
    assert_eq!(stats.sum_member_size, 8);
    assert_eq!(stats.padding, 0);
    assert_eq!(stats.sum_member_size + stats.sum_holes + stats.padding, 8);
}

#[test]
fn members_without_size_are_passed_over() {
    let members = vec![at(0, 4), at(4, 0), at(8, 4)];
    let stats = AlignmentStats::from_layout(&members, 12).unwrap();
    assert_eq!(stats.nr_holes, 1);
    assert_eq!(stats.hole_positions, vec![(2, 4)]);
    let members = vec![at(0, 4), MemberLayout { offset: 6, size: 4, item_size: 0 }];
    let stats = AlignmentStats::from_layout(&members, 12).unwrap();
    assert_eq!(stats.nr_holes, 0);
    assert_eq!(stats.sum_member_size, 8);
    assert_eq!(stats.padding, 8);
}

#[test]
fn arrays_are_aligned_by_their_items() {
    let members = vec![at(0, 1), MemberLayout { offset: 2, size: 8, item_size: 2 }, at(10, 4)];
    let stats = AlignmentStats::from_layout(&members, 16).unwrap();
    assert_eq!(stats.nr_unnat_alignment, 1);
    assert_eq!(stats.nr_holes, 1);
    assert_eq!(stats.hole_positions, vec![(1, 1)]);
    assert_eq!(stats.padding, 2);
}

#[test]
fn overlapping_members_leave_no_hole() {
    let members = vec![at(0, 8), at(4, 4), at(4, 4)];
    let stats = AlignmentStats::from_layout(&members, 8).unwrap();
    assert_eq!(stats.nr_holes, 0);
    assert_eq!(stats.sum_holes, 0);
    assert_eq!(stats.sum_member_size, 16);
    assert_eq!(stats.padding, 0);
}

#[test]
fn sums_that_do_not_fit_are_invalid() {
    let members = vec![at(0, usize::MAX), at(0, 1)];
    let error = AlignmentStats::from_layout(&members, 8).err().unwrap();
    assert_eq!(error.kind(), ErrorKind::InvalidAttributeError);
    let members = vec![at(0, 0), at(usize::MAX, 1), at(0, 1), at(usize::MAX, 1)];
    let error = AlignmentStats::from_layout(&members, 8).err().unwrap();
    assert_eq!(error.kind(), ErrorKind::InvalidAttributeError);
}

#[test]
fn numbers_are_written_in_decimal() {
    assert_eq!(decimal(0), "0");
    assert_eq!(decimal(7), "7");
    assert_eq!(decimal(10), "10");
    assert_eq!(decimal(4096), "4096");
    assert_eq!(decimal(1234567890), "1234567890");
    assert_eq!(decimal(usize::MAX), usize::MAX.to_string());
}

#[test]
fn text_is_padded_on_the_left() {
    assert_eq!(pad_left("8", 4), "   8");
    assert_eq!(pad_left("1234", 4), "1234");
    assert_eq!(pad_left("12345", 4), "12345");
    assert_eq!(pad_left("", 2), "  ");
    let mut text = String::from("a");
    push_spaces(&mut text, 3);
    assert_eq!(text, "a   ");
    push_spaces(&mut text, 0);
    assert_eq!(text, "a   ");
    let mut text = String::new();
    push_indent(&mut text, 0);
    assert_eq!(text, "    ");
    push_indent(&mut text, 2);
    assert_eq!(text, "                ");
}

#[test]
fn last_line_is_measured_in_bytes() {
    assert_eq!(last_line_len(""), 0);
    assert_eq!(last_line_len("abc"), 3);
    assert_eq!(last_line_len("abc\n"), 0);
    assert_eq!(last_line_len("abc\nde"), 2);
    assert_eq!(last_line_len("a\n\nxyz;"), 4);
    assert_eq!(last_line_len("\u{e9}"), 2);
}

fn key(name: &str, byte_size: usize, members: &[(&str, usize)]) -> StructHashKey {
    StructHashKey {
        name: name.to_string(),
        byte_size,
        members: members.iter().map(|(name, offset)| (name.to_string(), *offset)).collect(),
    }
}

#[test]
fn keys_differ_by_member_name_or_offset() {
    let a = key("foo", 8, &[("a", 0), ("b", 4)]);
    assert!(same_key(&a, &key("foo", 8, &[("a", 0), ("b", 4)])));
    assert!(!same_key(&a, &key("foo", 8, &[("a", 0), ("c", 4)])));
    assert!(!same_key(&a, &key("foo", 8, &[("a", 0), ("b", 2)])));
    assert!(!same_key(&a, &key("foo", 8, &[("a", 0)])));
    assert!(!same_key(&a, &key("foo", 12, &[("a", 0), ("b", 4)])));
    assert!(!same_key(&a, &key("bar", 8, &[("a", 0), ("b", 4)])));
    assert!(same_key(&key("e", 0, &[]), &key("e", 0, &[])));
}

#[test]
fn the_last_character_is_told() {
    assert!(ends_with("char *", '*'));
    assert!(ends_with("*", '*'));
    assert!(!ends_with("", '*'));
    assert!(!ends_with("* ", '*'));
    assert!(!ends_with("int", '*'));
    assert!(ends_with("caf\u{e9}", '\u{e9}'));
    assert!(!ends_with("caf\u{e9}", 'e'));
}
