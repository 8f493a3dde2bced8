//! Finding types by tag and by name: one pass over `.debug_info`.
//!
//! The pass visits the units in the order of the section and the DIEs of
//! each unit in depth-first order. A DIE that is only a declaration is
//! not indexed, and neither is one without a name.
use vstd::prelude::*;
use vstd::hash_map::StringHashMap;
use vstd::string::*;
use crate::dwarf::{BorrowableDwarf, Dwarf, DwarfContext, DwarfUnit, GimliCU, GimliDwarf, OwnedDwarf};
use crate::dwarf::{dwarf_model, entries_left, headers_left, unit_model};
use crate::dwarf::{die_attr, next_dfs, next_header, resolve_unit, unit_entries, unit_headers};
use crate::dwarf::{spec_unit_context, StructHashKey, StructKeyView};
use crate::layout::spec_offset_in_struct;
use crate::model::{AttrForm, AttrRead, DieHead, DwarfModel, UnitModel, DW_AT_DECLARATION, DW_TAG_STRUCTURE_TYPE};
use crate::types::{get_entry_name, spec_entry_name, spec_members, spec_name, spec_size_of, HasLocation, Tagged};
use crate::types::{Member, Struct, Type, UnitHasMembers, UnitNamedType};
use crate::{Error, ErrorKind};

verus! {

/// Collects the offsets of the unit headers of `.debug_info`, in the order
/// of the section.
pub fn header_offsets(dwarf: &GimliDwarf<'_>) -> (offsets: Vec<usize>)
    ensures
        offsets@ == dwarf_model(dwarf).headers,
{
    let mut headers = unit_headers(dwarf);
    let ghost all = dwarf_model(dwarf).headers;
    let mut offsets: Vec<usize> = Vec::new();
    let ghost mut k: int = 0;
    assert(all.skip(0) == all);
    assert(all.take(0) == Seq::<usize>::empty());
    loop
        invariant
            0 <= k <= all.len(),
            all == dwarf_model(dwarf).headers,
            headers_left(&headers) == all.skip(k),
            offsets@ == all.take(k),
        ensures
            offsets@ == all,
        decreases headers_left(&headers).len(),
    {
        match next_header(&mut headers) {
            None => {
                assert(all.take(k) == all);
                break ;
            },
            Some(offset) => {
                proof {
                    assert(all.skip(k)[0] == all[k]);
                    assert(all.skip(k).skip(1) == all.skip(k + 1));
                    assert(all.take(k + 1) == all.take(k).push(all[k]));
                }
                offsets.push(offset);
                proof {
                    k = k + 1;
                }
            },
        }
    }
    offsets
}

/// The DIEs among `entries` that bear `tag`, as positions in the unit whose
/// header stands at `die_offset`.
pub open spec fn tagged_among(entries: Seq<DieHead>, die_offset: usize, tag: u16) -> Seq<DwarfUnit>
    decreases entries.len(),
{
    if entries.len() == 0 {
        Seq::empty()
    } else {
        let before = tagged_among(entries.drop_last(), die_offset, tag);
        if entries.last().tag == tag {
            before.push(DwarfUnit { die_offset, entry_offset: entries.last().offset })
        } else {
            before
        }
    }
}

/// The positions of the DIEs with `tag` in the unit at `die_offset`: none
/// where no unit resolves there.
pub open spec fn tagged_in_unit(m: DwarfModel, die_offset: usize, tag: u16) -> Seq<DwarfUnit> {
    match m.unit(die_offset) {
        Some(u) => tagged_among(u.entries, die_offset, tag),
        None => Seq::empty(),
    }
}

/// The positions of the DIEs with `tag` in the units at `offsets`, unit by
/// unit.
pub open spec fn tagged_in_units(m: DwarfModel, offsets: Seq<usize>, tag: u16) -> Seq<DwarfUnit>
    decreases offsets.len(),
{
    if offsets.len() == 0 {
        Seq::empty()
    } else {
        tagged_in_units(m, offsets.drop_last(), tag) + tagged_in_unit(m, offsets.last(), tag)
    }
}

/// The positions of all DIEs with `tag`, declarations too, in the order of
/// the pass.
pub open spec fn spec_tagged_entries(m: DwarfModel, tag: u16) -> Seq<DwarfUnit> {
    tagged_in_units(m, m.headers, tag)
}

/// Appends the positions of the DIEs with `tag` in `unit` to `found`.
fn push_tagged(found: &mut Vec<DwarfUnit>, unit: &GimliCU<'_>, die_offset: usize, tag: u16)
    ensures
        final(found)@ == old(found)@ + tagged_among(unit_model(unit).entries, die_offset, tag),
{
    let mut cursor = unit_entries(unit);
    let ghost all = unit_model(unit).entries;
    let ghost start = found@;
    let ghost mut k: int = 0;
    assert(all.skip(0) == all);
    assert(all.take(0) == Seq::<DieHead>::empty());
    assert(start + Seq::<DwarfUnit>::empty() == start);
    loop
        invariant
            0 <= k <= all.len(),
            entries_left(&cursor) == all.skip(k),
            found@ == start + tagged_among(all.take(k), die_offset, tag),
        ensures
            found@ == start + tagged_among(all, die_offset, tag),
        decreases entries_left(&cursor).len(),
    {
        match next_dfs(&mut cursor) {
            None => {
                assert(all.take(k) == all);
                break ;
            },
            Some(head) => {
                proof {
                    assert(all.skip(k)[0] == all[k]);
                    assert(all.skip(k).skip(1) == all.skip(k + 1));
                    assert(all.take(k + 1).drop_last() == all.take(k));
                }
                if head.tag == tag {
                    found.push(DwarfUnit { die_offset, entry_offset: head.offset });
                    assert(found@ == start + tagged_among(all.take(k + 1), die_offset, tag));
                }
                proof {
                    k = k + 1;
                }
            },
        }
    }
}

/// Collects the positions of all DIEs with `tag`, in the order of the pass.
/// Declarations are among them: they are left out where an index is built,
/// not here.
pub fn tagged_entries<D: BorrowableDwarf>(dwarf: &D, tag: u16) -> (found: Vec<DwarfUnit>)
    ensures
        found@ == spec_tagged_entries(dwarf.model(), tag),
{
    let view = dwarf.borrow_dwarf();
    let offsets = header_offsets(&view);
    let ghost m = dwarf.model();
    let mut found: Vec<DwarfUnit> = Vec::new();
    let mut i: usize = 0;
    while i < offsets.len()
        invariant
            i <= offsets.len(),
            m == dwarf_model(&view),
            found@ == tagged_in_units(m, offsets@.take(i as int), tag),
        decreases offsets.len() - i,
    {
        assert(offsets@.take(i + 1).drop_last() == offsets@.take(i as int));
        match resolve_unit(&view, offsets[i]) {
            Ok(unit) => {
                push_tagged(&mut found, &unit, offsets[i], tag);
            },
            Err(_) => {
                assert(found@ + Seq::<DwarfUnit>::empty() == found@);
            },
        }
        i += 1;
    }
    assert(offsets@.take(i as int) == offsets@);
    found
}

/// The positions of the DIEs with `tag` in the units at `offsets`, counted
/// from the first unit on.
pub open spec fn tagged_from(m: DwarfModel, offsets: Seq<usize>, tag: u16) -> Seq<DwarfUnit>
    decreases offsets.len(),
{
    if offsets.len() == 0 {
        Seq::empty()
    } else {
        tagged_in_unit(m, offsets[0], tag) + tagged_from(m, offsets.skip(1), tag)
    }
}

proof fn lemma_tagged_from_push(m: DwarfModel, offsets: Seq<usize>, last: usize, tag: u16)
    ensures
        tagged_from(m, offsets.push(last), tag) == tagged_from(m, offsets, tag) + tagged_in_unit(m, last, tag),
    decreases offsets.len(),
{
    let pushed = offsets.push(last);
    let unit = tagged_in_unit(m, last, tag);
    assert(tagged_from(m, pushed, tag) == tagged_in_unit(m, pushed[0], tag) + tagged_from(m, pushed.skip(1), tag));
    if offsets.len() == 0 {
        assert(pushed.skip(1) == Seq::<usize>::empty());
        assert(tagged_from(m, pushed.skip(1), tag) == Seq::<DwarfUnit>::empty());
        assert(tagged_from(m, offsets, tag) == Seq::<DwarfUnit>::empty());
        assert(unit + Seq::<DwarfUnit>::empty() == unit);
        assert(Seq::<DwarfUnit>::empty() + unit == unit);
    } else {
        assert(pushed.skip(1) == offsets.skip(1).push(last));
        assert(pushed[0] == offsets[0]);
        lemma_tagged_from_push(m, offsets.skip(1), last, tag);
        let head = tagged_in_unit(m, offsets[0], tag);
        let tail = tagged_from(m, offsets.skip(1), tag);
        assert(tagged_from(m, offsets, tag) == head + tail);
        assert(head + (tail + unit) == (head + tail) + unit);
    }
}

/// Counting from the first unit on and counting up to the last give the
/// same pass.
pub proof fn lemma_tagged_from_start(m: DwarfModel, offsets: Seq<usize>, tag: u16)
    ensures
        tagged_from(m, offsets, tag) == tagged_in_units(m, offsets, tag),
    decreases offsets.len(),
{
    if offsets.len() > 0 {
        lemma_tagged_from_start(m, offsets.drop_last(), tag);
        lemma_tagged_from_push(m, offsets.drop_last(), offsets.last(), tag);
        assert(offsets.drop_last().push(offsets.last()) == offsets);
    }
}

/// A pass over the DIEs with one tag that the caller drives: each call of
/// [`TaggedEntries::next`] hands out the next position, and the caller ends
/// the pass by not asking for more. A unit is resolved when the pass comes
/// to it.
pub struct TaggedEntries<'d, D: BorrowableDwarf> {
    dwarf: &'d D,
    tag: u16,
    offsets: Vec<usize>,
    unit: usize,
    pending: Vec<DwarfUnit>,
    at: usize,
}

impl<'d, D: BorrowableDwarf> TaggedEntries<'d, D> {
    /// Whether the pass is in order.
    pub closed spec fn wf(&self) -> bool {
        self.at <= self.pending.len() && self.unit <= self.offsets.len()
    }

    /// The positions that the pass will still hand out.
    pub closed spec fn remaining(&self) -> Seq<DwarfUnit> {
        self.pending@.skip(self.at as int) + tagged_from(
            self.dwarf.model(),
            self.offsets@.skip(self.unit as int),
            self.tag,
        )
    }

    /// The next position of the pass, or `None` when the pass is over.
    pub fn next(&mut self) -> (r: Option<DwarfUnit>)
        requires
            old(self).wf(),
        ensures
            final(self).wf(),
            match r {
                Some(location) => old(self).remaining().len() > 0 && location == old(self).remaining()[0]
                    && final(self).remaining() == old(self).remaining().skip(1),
                None => old(self).remaining().len() == 0 && final(self).remaining().len() == 0,
            },
    {
        let ghost all = self.remaining();
        loop
            invariant
                self.wf(),
                self.remaining() == all,
                all == old(self).remaining(),
            decreases self.offsets.len() - self.unit,
        {
            if self.at < self.pending.len() {
                let location = self.pending[self.at];
                proof {
                    assert(self.pending@.skip(self.at as int)[0] == location);
                    assert(self.pending@.skip(self.at as int).skip(1) == self.pending@.skip(self.at + 1));
                    assert(all[0] == location);
                    assert(all.skip(1) == self.pending@.skip(self.at + 1) + tagged_from(
                        self.dwarf.model(),
                        self.offsets@.skip(self.unit as int),
                        self.tag,
                    ));
                }
                self.at += 1;
                return Some(location);
            }
            if self.unit >= self.offsets.len() {
                proof {
                    assert(self.offsets@.skip(self.unit as int).len() == 0);
                    assert(self.pending@.skip(self.at as int).len() == 0);
                    assert(tagged_from(self.dwarf.model(), self.offsets@.skip(self.unit as int), self.tag).len()
                        == 0);
                }
                return None;
            }
            let offset = self.offsets[self.unit];
            let mut found: Vec<DwarfUnit> = Vec::new();
            let view = self.dwarf.borrow_dwarf();
            match resolve_unit(&view, offset) {
                Ok(unit) => {
                    push_tagged(&mut found, &unit, offset, self.tag);
                    assert(found@ == tagged_in_unit(self.dwarf.model(), offset, self.tag));
                },
                Err(_) => {},
            }
            proof {
                assert(self.offsets@.skip(self.unit as int)[0] == offset);
                assert(self.offsets@.skip(self.unit as int).skip(1) == self.offsets@.skip(self.unit + 1));
                assert(self.pending@.skip(self.at as int) == Seq::<DwarfUnit>::empty());
                assert(found@.skip(0) == found@);
                assert(Seq::<DwarfUnit>::empty() + (found@ + tagged_from(
                    self.dwarf.model(),
                    self.offsets@.skip(self.unit + 1),
                    self.tag,
                )) == found@ + tagged_from(self.dwarf.model(), self.offsets@.skip(self.unit + 1), self.tag));
            }
            self.pending = found;
            self.at = 0;
            self.unit += 1;
        }
    }
}

/// Starts a pass over the DIEs with `tag`, declarations among them, that
/// the caller drives and may end early: the pass will hand out the positions
/// of [`spec_tagged_entries`], one by one.
pub fn for_each_tagged_entry<D: BorrowableDwarf>(dwarf: &D, tag: u16) -> (pass: TaggedEntries<'_, D>)
    ensures
        pass.wf(),
        pass.remaining() == spec_tagged_entries(dwarf.model(), tag),
{
    let view = dwarf.borrow_dwarf();
    let offsets = header_offsets(&view);
    proof {
        lemma_tagged_from_start(dwarf.model(), offsets@, tag);
        assert(offsets@.skip(0) == offsets@);
        assert(Seq::<DwarfUnit>::empty().skip(0) == Seq::<DwarfUnit>::empty());
        assert(Seq::<DwarfUnit>::empty() + tagged_from(dwarf.model(), offsets@, tag) == tagged_from(
            dwarf.model(),
            offsets@,
            tag,
        ));
    }
    TaggedEntries { dwarf, tag, offsets, unit: 0, pending: Vec::new(), at: 0 }
}

/// The positions that a list of handles designates.
pub open spec fn locations_of<T: HasLocation>(handles: Seq<T>) -> Seq<DwarfUnit> {
    Seq::new(handles.len(), |i: int| handles[i].spec_location())
}

/// Whether the DIE at `offset` is only a declaration: it bears the
/// declaration flag, and the flag is set.
pub open spec fn spec_is_declaration(u: UnitModel, offset: usize) -> bool {
    match u.attr(offset, DW_AT_DECLARATION) {
        Some(AttrRead::Present(attr)) => attr.form == AttrForm::Flag(true),
        _ => false,
    }
}

/// Whether the DIE at `offset` of `unit` is only a declaration.
pub fn is_declaration(unit: &GimliCU<'_>, offset: usize) -> (r: bool)
    ensures
        r == spec_is_declaration(unit_model(unit), offset),
{
    match die_attr(unit, offset, DW_AT_DECLARATION) {
        Some(AttrRead::Present(attr)) => match attr.form {
            AttrForm::Flag(set) => set,
            _ => false,
        },
        _ => false,
    }
}

/// The name under which the DIE at `offset` is indexed: the name of a DIE
/// that is no declaration and has a name that can be read.
pub open spec fn spec_indexed_name(m: DwarfModel, u: UnitModel, offset: usize) -> Option<Seq<char>> {
    if spec_is_declaration(u, offset) {
        None
    } else {
        match spec_entry_name(m, u, offset) {
            Ok(name) => Some(name),
            Err(_) => None,
        }
    }
}

fn indexed_name<D: BorrowableDwarf>(dwarf: &D, unit: &GimliCU<'_>, offset: usize) -> (r: Option<String>)
    ensures
        match r {
            Some(name) => spec_indexed_name(dwarf.model(), unit_model(unit), offset) == Some(name@),
            None => spec_indexed_name(dwarf.model(), unit_model(unit), offset) is None,
        },
{
    if is_declaration(unit, offset) {
        None
    } else {
        match get_entry_name(dwarf, unit, offset) {
            Ok(name) => Some(name),
            Err(_) => None,
        }
    }
}

/// The indexed DIEs among `entries` that bear `tag`: for each its name and
/// its position.
pub open spec fn named_among(m: DwarfModel, u: UnitModel, entries: Seq<DieHead>, die_offset: usize, tag: u16) -> Seq<
    (Seq<char>, DwarfUnit),
>
    decreases entries.len(),
{
    if entries.len() == 0 {
        Seq::empty()
    } else {
        let before = named_among(m, u, entries.drop_last(), die_offset, tag);
        let last = entries.last();
        if last.tag == tag {
            match spec_indexed_name(m, u, last.offset) {
                Some(name) => before.push((name, DwarfUnit { die_offset, entry_offset: last.offset })),
                None => before,
            }
        } else {
            before
        }
    }
}

/// The indexed DIEs with `tag` in the unit at `die_offset`.
pub open spec fn named_in_unit(m: DwarfModel, die_offset: usize, tag: u16) -> Seq<(Seq<char>, DwarfUnit)> {
    match m.unit(die_offset) {
        Some(u) => named_among(m, u, u.entries, die_offset, tag),
        None => Seq::empty(),
    }
}

/// The indexed DIEs with `tag` in the units at `offsets`, unit by unit.
pub open spec fn named_in_units(m: DwarfModel, offsets: Seq<usize>, tag: u16) -> Seq<(Seq<char>, DwarfUnit)>
    decreases offsets.len(),
{
    if offsets.len() == 0 {
        Seq::empty()
    } else {
        named_in_units(m, offsets.drop_last(), tag) + named_in_unit(m, offsets.last(), tag)
    }
}

/// All indexed DIEs with `tag`, in the order of the pass, with every
/// occurrence of a name.
pub open spec fn spec_named_list(m: DwarfModel, tag: u16) -> Seq<(Seq<char>, DwarfUnit)> {
    named_in_units(m, m.headers, tag)
}

/// The names and positions that a list of named handles holds.
pub open spec fn named_views<T: HasLocation>(list: Seq<(String, T)>) -> Seq<(Seq<char>, DwarfUnit)> {
    Seq::new(list.len(), |i: int| (list[i].0@, list[i].1.spec_location()))
}

/// Appends the indexed DIEs with the tag of `T` in `unit` to `found`.
fn push_named<D: BorrowableDwarf, T: Tagged>(
    found: &mut Vec<(String, T)>,
    dwarf: &D,
    unit: &GimliCU<'_>,
    die_offset: usize,
)
    ensures
        named_views(final(found)@) == named_views(old(found)@) + named_among(
            dwarf.model(),
            unit_model(unit),
            unit_model(unit).entries,
            die_offset,
            T::spec_tag(),
        ),
{
    let tag = T::tag();
    let mut cursor = unit_entries(unit);
    let ghost m = dwarf.model();
    let ghost u = unit_model(unit);
    let ghost all = unit_model(unit).entries;
    let ghost start = named_views(found@);
    let ghost mut k: int = 0;
    assert(all.skip(0) == all);
    assert(all.take(0) == Seq::<DieHead>::empty());
    assert(start + Seq::<(Seq<char>, DwarfUnit)>::empty() == start);
    loop
        invariant
            0 <= k <= all.len(),
            m == dwarf.model(),
            u == unit_model(unit),
            all == u.entries,
            tag == T::spec_tag(),
            entries_left(&cursor) == all.skip(k),
            named_views(found@) == start + named_among(m, u, all.take(k), die_offset, tag),
        ensures
            named_views(found@) == start + named_among(m, u, all, die_offset, tag),
        decreases entries_left(&cursor).len(),
    {
        match next_dfs(&mut cursor) {
            None => {
                assert(all.take(k) == all);
                break ;
            },
            Some(head) => {
                proof {
                    assert(all.skip(k)[0] == all[k]);
                    assert(all.skip(k).skip(1) == all.skip(k + 1));
                    assert(all.take(k + 1).drop_last() == all.take(k));
                }
                if head.tag == tag {
                    match indexed_name(dwarf, unit, head.offset) {
                        Some(name) => {
                            let ghost before = named_views(found@);
                            let ghost text = name@;
                            let location = DwarfUnit { die_offset, entry_offset: head.offset };
                            found.push((name, T::new(location)));
                            assert(named_views(found@) == before.push((text, location)));
                            assert(named_views(found@) == start + named_among(m, u, all.take(k + 1), die_offset, tag));
                        },
                        None => {},
                    }
                }
                proof {
                    k = k + 1;
                }
            },
        }
    }
}

/// Collects all indexed DIEs with the tag of `T`, each with its name, in the
/// order of the pass.
pub fn named_entries<D: BorrowableDwarf, T: Tagged>(dwarf: &D) -> (found: Vec<(String, T)>)
    ensures
        named_views(found@) == spec_named_list(dwarf.model(), T::spec_tag()),
{
    let view = dwarf.borrow_dwarf();
    let offsets = header_offsets(&view);
    let ghost m = dwarf.model();
    let mut found: Vec<(String, T)> = Vec::new();
    let mut i: usize = 0;
    assert(named_views(found@) == Seq::<(Seq<char>, DwarfUnit)>::empty());
    while i < offsets.len()
        invariant
            i <= offsets.len(),
            m == dwarf_model(&view),
            m == dwarf.model(),
            named_views(found@) == named_in_units(m, offsets@.take(i as int), T::spec_tag()),
        decreases offsets.len() - i,
    {
        assert(offsets@.take(i + 1).drop_last() == offsets@.take(i as int));
        match resolve_unit(&view, offsets[i]) {
            Ok(unit) => {
                push_named(&mut found, dwarf, &unit, offsets[i]);
            },
            Err(_) => {
                assert(named_views(found@) + Seq::<(Seq<char>, DwarfUnit)>::empty() == named_views(found@));
            },
        }
        i += 1;
    }
    assert(offsets@.take(i as int) == offsets@);
    found
}

/// The position that the first entry with the key `key` holds.
pub open spec fn first_keyed<K>(list: Seq<(K, DwarfUnit)>, key: K) -> Option<DwarfUnit>
    decreases list.len(),
{
    if list.len() == 0 {
        None
    } else {
        match first_keyed(list.drop_last(), key) {
            Some(found) => Some(found),
            None => if list.last().0 == key {
                Some(list.last().1)
            } else {
                None
            },
        }
    }
}

/// The position that the last entry with the key `key` holds.
pub open spec fn last_keyed<K>(list: Seq<(K, DwarfUnit)>, key: K) -> Option<DwarfUnit>
    decreases list.len(),
{
    if list.len() == 0 {
        None
    } else if list.last().0 == key {
        Some(list.last().1)
    } else {
        last_keyed(list.drop_last(), key)
    }
}

/// Whether no key occurs twice in `list`.
pub open spec fn distinct_keys<K>(list: Seq<(K, DwarfUnit)>) -> bool {
    forall|i: int, j: int| 0 <= i < j < list.len() ==> list[i].0 != list[j].0
}

/// The first of two lists that holds the key decides.
pub proof fn lemma_first_keyed_concat<K>(a: Seq<(K, DwarfUnit)>, b: Seq<(K, DwarfUnit)>, key: K)
    ensures
        first_keyed(a + b, key) == (match first_keyed(a, key) {
            Some(found) => Some(found),
            None => first_keyed(b, key),
        }),
    decreases b.len(),
{
    if b.len() == 0 {
        assert(a + b == a);
    } else {
        assert((a + b).drop_last() == a + b.drop_last());
        assert((a + b).last() == b.last());
        lemma_first_keyed_concat(a, b.drop_last(), key);
    }
}

/// A key is found exactly where some entry holds it, and then the entry
/// found holds it.
pub proof fn lemma_first_keyed_found<K>(list: Seq<(K, DwarfUnit)>, key: K)
    ensures
        first_keyed(list, key) is Some <==> exists|i: int| 0 <= i < list.len() && list[i].0 == key,
        first_keyed(list, key) is Some ==> exists|i: int|
            0 <= i < list.len() && list[i].0 == key && first_keyed(list, key) == Some(list[i].1),
        last_keyed(list, key) is Some <==> exists|i: int| 0 <= i < list.len() && list[i].0 == key,
        last_keyed(list, key) is Some ==> exists|i: int|
            0 <= i < list.len() && list[i].0 == key && last_keyed(list, key) == Some(list[i].1),
    decreases list.len(),
{
    if list.len() > 0 {
        let before = list.drop_last();
        lemma_first_keyed_found(before, key);
        let n = list.len() - 1;
        if first_keyed(before, key) is Some {
            let i = choose|i: int|
                0 <= i < before.len() && before[i].0 == key && first_keyed(before, key) == Some(before[i].1);
            assert(list[i] == before[i]);
        } else if list.last().0 == key {
            assert(list[n].0 == key);
        } else {
            assert forall|i: int| 0 <= i < list.len() implies list[i].0 != key by {
                if i < n {
                    assert(before[i] == list[i]);
                }
            }
        }
        if list.last().0 == key {
            assert(list[n].0 == key);
        } else if last_keyed(before, key) is Some {
            let i = choose|i: int|
                0 <= i < before.len() && before[i].0 == key && last_keyed(before, key) == Some(before[i].1);
            assert(list[i] == before[i]);
        } else {
            assert forall|i: int| 0 <= i < list.len() implies list[i].0 != key by {
                if i < n {
                    assert(before[i] == list[i]);
                }
            }
        }
    }
}

/// A name that occurs once in a list is found at its one occurrence,
/// whether the first or the last occurrence is asked for: the list of all
/// occurrences and the map from names agree on it.
pub proof fn lemma_single_occurrence<K>(list: Seq<(K, DwarfUnit)>, key: K, i: int)
    requires
        0 <= i < list.len(),
        list[i].0 == key,
        forall|j: int| 0 <= j < list.len() && j != i ==> list[j].0 != key,
    ensures
        first_keyed(list, key) == Some(list[i].1),
        last_keyed(list, key) == Some(list[i].1),
{
    lemma_first_keyed_found(list, key);
}

/// In a list without a repeated key, the entry at `i` is the one found for
/// its key.
pub proof fn lemma_distinct_keyed<K>(list: Seq<(K, DwarfUnit)>, i: int)
    requires
        distinct_keys(list),
        0 <= i < list.len(),
    ensures
        last_keyed(list, list[i].0) == Some(list[i].1),
        first_keyed(list, list[i].0) == Some(list[i].1),
{
    assert forall|j: int| 0 <= j < list.len() && j != i implies list[j].0 != list[i].0 by {
        if j < i {
            assert(list[j].0 != list[i].0);
        } else {
            assert(list[i].0 != list[j].0);
        }
    }
    lemma_single_occurrence(list, list[i].0, i);
}

/// A map keeps every key of the list it was made from, so two entries with
/// different keys are two entries of the map: where `map` holds no key
/// twice and holds for every key what the list holds for it last, it has
/// an entry for the key at `i` and another for the key at `j`.
pub proof fn lemma_map_tells_keys_apart<K>(list: Seq<(K, DwarfUnit)>, map: Seq<(K, DwarfUnit)>, i: int, j: int)
    requires
        distinct_keys(map),
        forall|key: K| last_keyed(map, key) == last_keyed(list, key),
        0 <= i < list.len(),
        0 <= j < list.len(),
        list[i].0 != list[j].0,
    ensures
        exists|p: int, q: int|
            0 <= p < map.len() && 0 <= q < map.len() && p != q && map[p].0 == list[i].0 && map[q].0
                == list[j].0,
{
    lemma_first_keyed_found(list, list[i].0);
    lemma_first_keyed_found(list, list[j].0);
    lemma_first_keyed_found(map, list[i].0);
    lemma_first_keyed_found(map, list[j].0);
    assert(last_keyed(map, list[i].0) is Some);
    assert(last_keyed(map, list[j].0) is Some);
    let p = choose|p: int| 0 <= p < map.len() && map[p].0 == list[i].0;
    let q = choose|q: int| 0 <= q < map.len() && map[q].0 == list[j].0;
    assert(p != q);
}

/// The first indexed DIE with `tag` whose name is `name`.
pub open spec fn spec_lookup(m: DwarfModel, tag: u16, name: Seq<char>) -> Option<DwarfUnit> {
    first_keyed(spec_named_list(m, tag), name)
}

proof fn lemma_found_among(
    m: DwarfModel,
    u: UnitModel,
    entries: Seq<DieHead>,
    die_offset: usize,
    tag: u16,
    name: Seq<char>,
    n: int,
)
    requires
        0 <= n <= entries.len(),
        first_keyed(named_among(m, u, entries.take(n), die_offset, tag), name) is Some,
    ensures
        first_keyed(named_among(m, u, entries, die_offset, tag), name) == first_keyed(
            named_among(m, u, entries.take(n), die_offset, tag),
            name,
        ),
    decreases entries.len() - n,
{
    if n < entries.len() {
        assert(entries.take(n + 1).drop_last() == entries.take(n));
        let before = named_among(m, u, entries.take(n), die_offset, tag);
        let after = named_among(m, u, entries.take(n + 1), die_offset, tag);
        if after != before {
            assert(after.drop_last() == before);
        }
        lemma_found_among(m, u, entries, die_offset, tag, name, n + 1);
    } else {
        assert(entries.take(n) == entries);
    }
}

proof fn lemma_found_in_units(m: DwarfModel, offsets: Seq<usize>, tag: u16, name: Seq<char>, n: int)
    requires
        0 <= n <= offsets.len(),
        first_keyed(named_in_units(m, offsets.take(n), tag), name) is Some,
    ensures
        first_keyed(named_in_units(m, offsets, tag), name) == first_keyed(
            named_in_units(m, offsets.take(n), tag),
            name,
        ),
    decreases offsets.len() - n,
{
    if n < offsets.len() {
        assert(offsets.take(n + 1).drop_last() == offsets.take(n));
        lemma_first_keyed_concat(
            named_in_units(m, offsets.take(n), tag),
            named_in_unit(m, offsets[n], tag),
            name,
        );
        lemma_found_in_units(m, offsets, tag, name, n + 1);
    } else {
        assert(offsets.take(n) == offsets);
    }
}

/// Finds the first indexed DIE with `tag` in `unit` whose name is `name`.
fn find_in_unit<D: BorrowableDwarf>(dwarf: &D, unit: &GimliCU<'_>, die_offset: usize, tag: u16, name: &String) -> (r:
    Option<DwarfUnit>)
    ensures
        r == first_keyed(
            named_among(dwarf.model(), unit_model(unit), unit_model(unit).entries, die_offset, tag),
            name@,
        ),
{
    let mut cursor = unit_entries(unit);
    let ghost m = dwarf.model();
    let ghost u = unit_model(unit);
    let ghost all = unit_model(unit).entries;
    let ghost mut k: int = 0;
    assert(all.skip(0) == all);
    assert(all.take(0) == Seq::<DieHead>::empty());
    loop
        invariant
            0 <= k <= all.len(),
            m == dwarf.model(),
            u == unit_model(unit),
            all == u.entries,
            entries_left(&cursor) == all.skip(k),
            first_keyed(named_among(m, u, all.take(k), die_offset, tag), name@) is None,
        ensures
            first_keyed(named_among(m, u, all, die_offset, tag), name@) is None,
        decreases entries_left(&cursor).len(),
    {
        match next_dfs(&mut cursor) {
            None => {
                assert(all.take(k) == all);
                break ;
            },
            Some(head) => {
                proof {
                    assert(all.skip(k)[0] == all[k]);
                    assert(all.skip(k).skip(1) == all.skip(k + 1));
                    assert(all.take(k + 1).drop_last() == all.take(k));
                }
                if head.tag == tag {
                    match indexed_name(dwarf, unit, head.offset) {
                        Some(entry_name) => {
                            let location = DwarfUnit { die_offset, entry_offset: head.offset };
                            proof {
                                let before = named_among(m, u, all.take(k), die_offset, tag);
                                let after = named_among(m, u, all.take(k + 1), die_offset, tag);
                                assert(after == before.push((entry_name@, location)));
                                assert(after.drop_last() == before);
                            }
                            if *name == entry_name {
                                proof {
                                    lemma_found_among(m, u, all, die_offset, tag, name@, k + 1);
                                }
                                return Some(location);
                            }
                        },
                        None => {},
                    }
                }
                proof {
                    k = k + 1;
                }
            },
        }
    }
    None
}

/// Finds the first indexed DIE with `tag` whose name is `name`. The pass
/// ends as soon as it is found.
pub fn lookup_entry<D: BorrowableDwarf>(dwarf: &D, tag: u16, name: &String) -> (found: Option<DwarfUnit>)
    ensures
        found == spec_lookup(dwarf.model(), tag, name@),
{
    let view = dwarf.borrow_dwarf();
    let offsets = header_offsets(&view);
    let ghost m = dwarf.model();
    let mut i: usize = 0;
    while i < offsets.len()
        invariant
            i <= offsets.len(),
            m == dwarf_model(&view),
            m == dwarf.model(),
            offsets@ == m.headers,
            first_keyed(named_in_units(m, offsets@.take(i as int), tag), name@) is None,
        decreases offsets.len() - i,
    {
        proof {
            assert(offsets@.take(i + 1).drop_last() == offsets@.take(i as int));
            lemma_first_keyed_concat(
                named_in_units(m, offsets@.take(i as int), tag),
                named_in_unit(m, offsets@[i as int], tag),
                name@,
            );
        }
        match resolve_unit(&view, offsets[i]) {
            Ok(unit) => match find_in_unit(dwarf, &unit, offsets[i], tag, name) {
                Some(location) => {
                    proof {
                        lemma_found_in_units(m, offsets@, tag, name@, i + 1);
                    }
                    return Some(location);
                },
                None => {},
            },
            Err(_) => {},
        }
        i += 1;
    }
    assert(offsets@.take(i as int) == offsets@);
    None
}

/// Whether `map` is the map made from `list`: it holds no key twice, and for
/// every key it holds what the list holds for it last.
pub open spec fn is_map_of<K>(map: Seq<(K, DwarfUnit)>, list: Seq<(K, DwarfUnit)>) -> bool {
    &&& distinct_keys(map)
    &&& forall|key: K| last_keyed(map, key) == last_keyed(list, key)
}

proof fn lemma_map_push<K>(map: Seq<(K, DwarfUnit)>, list: Seq<(K, DwarfUnit)>, entry: (K, DwarfUnit))
    requires
        is_map_of(map, list),
        forall|j: int| 0 <= j < map.len() ==> map[j].0 != entry.0,
    ensures
        is_map_of(map.push(entry), list.push(entry)),
{
    assert(map.push(entry).drop_last() == map);
    assert(list.push(entry).drop_last() == list);
    assert forall|key: K| last_keyed(map.push(entry), key) == last_keyed(list.push(entry), key) by {
        assert(last_keyed(map, key) == last_keyed(list, key));
    }
}

proof fn lemma_map_update<K>(map: Seq<(K, DwarfUnit)>, list: Seq<(K, DwarfUnit)>, p: int, entry: (K, DwarfUnit))
    requires
        is_map_of(map, list),
        0 <= p < map.len(),
        map[p].0 == entry.0,
    ensures
        is_map_of(map.update(p, entry), list.push(entry)),
{
    let after = map.update(p, entry);
    assert(list.push(entry).drop_last() == list);
    assert forall|i: int, j: int| 0 <= i < j < after.len() implies after[i].0 != after[j].0 by {
        assert(map[i].0 != map[j].0);
    }
    assert forall|key: K| last_keyed(after, key) == last_keyed(list.push(entry), key) by {
        assert(last_keyed(map, key) == last_keyed(list, key));
        lemma_first_keyed_found(after, key);
        lemma_first_keyed_found(map, key);
        if key == entry.0 {
            lemma_distinct_keyed(after, p);
        } else if last_keyed(after, key) is Some {
            let j = choose|j: int| 0 <= j < after.len() && after[j].0 == key;
            assert(j != p);
            assert(map[j] == after[j]);
            lemma_distinct_keyed(after, j);
            lemma_distinct_keyed(map, j);
        } else {
            if last_keyed(map, key) is Some {
                let j = choose|j: int| 0 <= j < map.len() && map[j].0 == key;
                assert(j != p);
                assert(after[j].0 == key);
            }
        }
    }
}

/// Makes the map from names of a list of named handles: one entry for each
/// name, with the handle that the list holds for it last.
pub fn map_by_name<T: Tagged>(list: &Vec<(String, T)>) -> (map: Vec<(String, T)>)
    ensures
        is_map_of(named_views(map@), named_views(list@)),
{
    let mut map: Vec<(String, T)> = Vec::new();
    let mut index: StringHashMap<usize> = StringHashMap::new();
    let ghost all = named_views(list@);
    let mut i: usize = 0;
    assert(all.take(0) == Seq::<(Seq<char>, DwarfUnit)>::empty());
    assert(named_views(map@) == Seq::<(Seq<char>, DwarfUnit)>::empty());
    while i < list.len()
        invariant
            i <= list.len(),
            all == named_views(list@),
            is_map_of(named_views(map@), all.take(i as int)),
            forall|j: int|
                0 <= j < map@.len() ==> index@.contains_key(#[trigger] named_views(map@)[j].0) && index@[named_views(
                    map@,
                )[j].0] == j,
            forall|n: Seq<char>| #[trigger]
                index@.contains_key(n) ==> index@[n] < map@.len() && named_views(map@)[index@[n] as int].0 == n,
        decreases list.len() - i,
    {
        let name = list[i].0.clone();
        let handle = T::new(list[i].1.location());
        let ghost entry = (name@, handle.spec_location());
        let ghost before = named_views(map@);
        let ghost known = index@;
        proof {
            assert(all[i as int] == entry);
            assert(all.take(i + 1) == all.take(i as int).push(entry));
        }
        let at = match index.get(name.as_str()) {
            Some(at) => Some(*at),
            None => None,
        };
        match at {
            Some(p) => {
                assert(before[p as int].0 == entry.0);
                map.set(p, (name, handle));
                proof {
                    let after = named_views(map@);
                    assert(after == before.update(p as int, entry));
                    lemma_map_update(before, all.take(i as int), p as int, entry);
                    assert forall|j: int| 0 <= j < after.len() implies index@.contains_key(#[trigger] after[j].0)
                        && index@[after[j].0] == j by {
                        assert(after[j].0 == before[j].0);
                    }
                    assert forall|n: Seq<char>| #[trigger] index@.contains_key(n) implies index@[n] < after.len()
                        && after[index@[n] as int].0 == n by {
                        assert(after[index@[n] as int].0 == before[index@[n] as int].0);
                    }
                }
            },
            None => {
                let position = map.len();
                index.insert(name.clone(), position);
                map.push((name, handle));
                proof {
                    let after = named_views(map@);
                    assert(after == before.push(entry));
                    assert forall|j: int| 0 <= j < before.len() implies before[j].0 != entry.0 by {
                        assert(known.contains_key(before[j].0));
                    }
                    lemma_map_push(before, all.take(i as int), entry);
                    assert(index@ == known.insert(entry.0, position));
                    assert forall|j: int| 0 <= j < after.len() implies index@.contains_key(#[trigger] after[j].0)
                        && index@[after[j].0] == j by {
                        if j < before.len() {
                            assert(after[j] == before[j]);
                            assert(known.contains_key(before[j].0));
                            assert(before[j].0 != entry.0);
                        }
                    }
                    assert forall|n: Seq<char>| #[trigger] index@.contains_key(n) implies index@[n] < after.len()
                        && after[index@[n] as int].0 == n by {
                        if n != entry.0 {
                            assert(known.contains_key(n));
                            assert(after[known[n] as int] == before[known[n] as int]);
                        }
                    }
                }
            },
        }
        i += 1;
    }
    assert(all.take(i as int) == all);
    map
}

/// The part that `members` have in the key of their struct: for each its
/// name, or no text where the name cannot be read, and its offset. The first
/// member whose offset cannot be had decides the error.
pub open spec fn member_keys(m: DwarfModel, u: UnitModel, members: Seq<Member>) -> Result<
    Seq<(Seq<char>, usize)>,
    ErrorKind,
>
    decreases members.len(),
{
    if members.len() == 0 {
        Ok(Seq::empty())
    } else {
        match member_keys(m, u, members.drop_last()) {
            Ok(before) => {
                let at = members.last().location.entry_offset;
                let name = match spec_entry_name(m, u, at) {
                    Ok(name) => name,
                    Err(_) => Seq::empty(),
                };
                match spec_offset_in_struct(u, at) {
                    Ok(offset) => Ok(before.push((name, offset))),
                    Err(e) => Err(e),
                }
            },
            Err(e) => Err(e),
        }
    }
}

proof fn lemma_member_keys_fail(m: DwarfModel, u: UnitModel, members: Seq<Member>, n: int)
    requires
        0 <= n <= members.len(),
        member_keys(m, u, members.take(n)) is Err,
    ensures
        member_keys(m, u, members) == member_keys(m, u, members.take(n)),
    decreases members.len() - n,
{
    if n < members.len() {
        assert(members.take(n + 1).drop_last() == members.take(n));
        lemma_member_keys_fail(m, u, members, n + 1);
    } else {
        assert(members.take(n) == members);
    }
}

/// The key of the struct at `location`, whose name is `name`: the name, the
/// struct's size, and the names and offsets of its members in source order.
pub open spec fn spec_struct_key(m: DwarfModel, u: UnitModel, name: Seq<char>, location: DwarfUnit) -> Result<
    StructKeyView,
    ErrorKind,
> {
    match spec_size_of(u, Type::Struct(Struct { location })) {
        Ok(byte_size) => match spec_members(u, location) {
            Ok(members) => match member_keys(m, u, members) {
                Ok(keys) => Ok(StructKeyView { name, byte_size, members: keys }),
                Err(e) => Err(e),
            },
            Err(e) => Err(e),
        },
        Err(e) => Err(e),
    }
}

/// The key of the struct at `location`, in the unit that the position names.
pub open spec fn spec_key_of(m: DwarfModel, name: Seq<char>, location: DwarfUnit) -> Result<StructKeyView, ErrorKind> {
    match spec_unit_context(m, location) {
        Ok(u) => spec_struct_key(m, u, name, location),
        Err(e) => Err(e),
    }
}

/// The structs of `list`, each with its key. The first struct whose key
/// cannot be had decides the error.
pub open spec fn keyed_list(m: DwarfModel, list: Seq<(Seq<char>, DwarfUnit)>) -> Result<
    Seq<(StructKeyView, DwarfUnit)>,
    ErrorKind,
>
    decreases list.len(),
{
    if list.len() == 0 {
        Ok(Seq::empty())
    } else {
        match keyed_list(m, list.drop_last()) {
            Ok(before) => match spec_key_of(m, list.last().0, list.last().1) {
                Ok(key) => Ok(before.push((key, list.last().1))),
                Err(e) => Err(e),
            },
            Err(e) => Err(e),
        }
    }
}

proof fn lemma_keyed_list_fails(m: DwarfModel, list: Seq<(Seq<char>, DwarfUnit)>, n: int)
    requires
        0 <= n <= list.len(),
        keyed_list(m, list.take(n)) is Err,
    ensures
        keyed_list(m, list) == keyed_list(m, list.take(n)),
    decreases list.len() - n,
{
    if n < list.len() {
        assert(list.take(n + 1).drop_last() == list.take(n));
        lemma_keyed_list_fails(m, list, n + 1);
    } else {
        assert(list.take(n) == list);
    }
}

/// All indexed structs, each with its key, in the order of the pass.
pub open spec fn spec_keyed_structs(m: DwarfModel) -> Result<Seq<(StructKeyView, DwarfUnit)>, ErrorKind> {
    keyed_list(m, spec_named_list(m, DW_TAG_STRUCTURE_TYPE))
}

/// The keys and positions that a list of keyed structs holds.
pub open spec fn keyed_views(list: Seq<(StructHashKey, Struct)>) -> Seq<(StructKeyView, DwarfUnit)> {
    Seq::new(list.len(), |i: int| (list[i].0@, list[i].1.location))
}

/// Whether a map from keys is the one made from the list that a
/// contract names.
pub open spec fn agrees_keyed_map(
    got: Result<Vec<(StructHashKey, Struct)>, Error>,
    want: Result<Seq<(StructKeyView, DwarfUnit)>, ErrorKind>,
) -> bool {
    match want {
        Ok(list) => got is Ok && is_map_of(keyed_views(got->Ok_0@), list),
        Err(k) => got is Err && got->Err_0@ == k,
    }
}

/// Whether two keys are the same: the same name, the same size, and the same
/// member names and offsets in the same order.
pub fn same_key(a: &StructHashKey, b: &StructHashKey) -> (same: bool)
    ensures
        same == (a@ == b@),
{
    if a.name != b.name || a.byte_size != b.byte_size || a.members.len() != b.members.len() {
        assert(a@ != b@) by {
            if a.members.len() != b.members.len() {
                assert(a@.members.len() != b@.members.len());
            }
        }
        return false;
    }
    let mut i: usize = 0;
    while i < a.members.len()
        invariant
            i <= a.members.len(),
            a.members.len() == b.members.len(),
            a.name@ == b.name@,
            a.byte_size == b.byte_size,
            forall|j: int| 0 <= j < i ==> a@.members[j] == b@.members[j],
        decreases a.members.len() - i,
    {
        if a.members[i].0 != b.members[i].0 || a.members[i].1 != b.members[i].1 {
            assert(a@.members[i as int] != b@.members[i as int]);
            return false;
        }
        i += 1;
    }
    assert(a@.members =~= b@.members);
    true
}

fn member_key_list<D: BorrowableDwarf>(dwarf: &D, unit: &GimliCU<'_>, members: &Vec<Member>) -> (r: Result<
    Vec<(String, usize)>,
    Error,
>)
    ensures
        match member_keys(dwarf.model(), unit_model(unit), members@) {
            Ok(keys) => r is Ok && Seq::new(r->Ok_0@.len(), |i: int| (r->Ok_0@[i].0@, r->Ok_0@[i].1)) == keys,
            Err(k) => r is Err && r->Err_0@ == k,
        },
{
    let ghost m = dwarf.model();
    let ghost u = unit_model(unit);
    let mut keys: Vec<(String, usize)> = Vec::new();
    let mut i: usize = 0;
    assert(Seq::new(keys@.len(), |i: int| (keys@[i].0@, keys@[i].1)) == Seq::<(Seq<char>, usize)>::empty());
    while i < members.len()
        invariant
            i <= members.len(),
            m == dwarf.model(),
            u == unit_model(unit),
            member_keys(m, u, members@.take(i as int)) == Ok::<Seq<(Seq<char>, usize)>, ErrorKind>(
                Seq::new(keys@.len(), |i: int| (keys@[i].0@, keys@[i].1)),
            ),
        decreases members.len() - i,
    {
        assert(members@.take(i + 1).drop_last() == members@.take(i as int));
        let ghost before = Seq::new(keys@.len(), |i: int| (keys@[i].0@, keys@[i].1));
        let name = match members[i].u_name(dwarf, unit) {
            Ok(name) => name,
            Err(_) => String::new(),
        };
        match members[i].u_offset_in_struct(unit) {
            Ok(offset) => {
                let ghost text = name@;
                keys.push((name, offset));
                assert(Seq::new(keys@.len(), |i: int| (keys@[i].0@, keys@[i].1)) == before.push((text, offset)));
            },
            Err(e) => {
                proof {
                    lemma_member_keys_fail(m, u, members@, i + 1);
                }
                return Err(e);
            },
        }
        i += 1;
    }
    assert(members@.take(i as int) == members@);
    Ok(keys)
}

impl Struct {
    /// The key of the struct in the fine-grained struct map, read in an
    /// already resolved unit: `name`, the struct's size, and the names and
    /// offsets of its members.
    pub fn u_hash_key<D: BorrowableDwarf>(&self, dwarf: &D, unit: &GimliCU<'_>, name: String) -> (r: Result<
        StructHashKey,
        Error,
    >)
        ensures
            match spec_struct_key(dwarf.model(), unit_model(unit), name@, self.location) {
                Ok(key) => r is Ok && r->Ok_0@ == key,
                Err(k) => r is Err && r->Err_0@ == k,
            },
    {
        let byte_size = match self.u_byte_size(unit) {
            Ok(byte_size) => byte_size,
            Err(e) => {
                return Err(e);
            },
        };
        let members = match self.u_members(unit) {
            Ok(members) => members,
            Err(e) => {
                return Err(e);
            },
        };
        match member_key_list(dwarf, unit, &members) {
            Ok(members) => Ok(StructHashKey { name, byte_size, members }),
            Err(e) => Err(e),
        }
    }
}

/// A copy of a list of positions.
fn copy_positions(positions: &Vec<usize>) -> (copy: Vec<usize>)
    ensures
        copy@ == positions@,
{
    let mut copy: Vec<usize> = Vec::new();
    let mut i: usize = 0;
    while i < positions.len()
        invariant
            i <= positions.len(),
            copy@ == positions@.take(i as int),
        decreases positions.len() - i,
    {
        copy.push(positions[i]);
        assert(positions@.take(i + 1) == positions@.take(i as int).push(positions@[i as int]));
        i += 1;
    }
    assert(positions@.take(i as int) == positions@);
    copy
}

/// Makes the fine-grained struct map of a list of named structs: one entry
/// for each key, with the struct that the list holds for it last. Each
/// struct's unit is resolved once. The entries are indexed by name, so that a
/// key is only held against the keys of its own name.
pub fn map_by_key<D: DwarfContext>(dwarf: &D, list: &Vec<(String, Struct)>) -> (r: Result<
    Vec<(StructHashKey, Struct)>,
    Error,
>)
    ensures
        agrees_keyed_map(r, keyed_list(dwarf.model(), named_views(list@))),
{
    let ghost m = dwarf.model();
    let ghost all = named_views(list@);
    let mut map: Vec<(StructHashKey, Struct)> = Vec::new();
    let mut index: StringHashMap<Vec<usize>> = StringHashMap::new();
    let ghost mut slot: Seq<int> = Seq::empty();
    let mut i: usize = 0;
    assert(all.take(0) == Seq::<(Seq<char>, DwarfUnit)>::empty());
    assert(keyed_views(map@) == Seq::<(StructKeyView, DwarfUnit)>::empty());
    while i < list.len()
        invariant
            i <= list.len(),
            m == dwarf.model(),
            all == named_views(list@),
            keyed_list(m, all.take(i as int)) is Ok,
            is_map_of(keyed_views(map@), keyed_list(m, all.take(i as int))->Ok_0),
            slot.len() == map@.len(),
            forall|j: int|
                0 <= j < map@.len() ==> index@.contains_key((#[trigger] keyed_views(map@)[j]).0.name) && 0
                    <= slot[j] < index@[keyed_views(map@)[j].0.name]@.len() && index@[keyed_views(
                    map@,
                )[j].0.name]@[slot[j]] == j,
            forall|n: Seq<char>, q: int|
                index@.contains_key(n) && 0 <= q < index@[n]@.len() ==> (#[trigger] index@[n]@[q]) < map@.len()
                    && keyed_views(map@)[index@[n]@[q] as int].0.name == n,
        decreases list.len() - i,
    {
        let name = list[i].0.clone();
        let handle = list[i].1;
        proof {
            assert(all.take(i + 1).drop_last() == all.take(i as int));
            assert(all.take(i + 1).last() == (name@, handle.location));
        }
        let key = match dwarf.unit_context(&handle.location) {
            Ok(unit) => handle.u_hash_key(dwarf, &unit, name),
            Err(e) => Err(e),
        };
        let key = match key {
            Ok(key) => key,
            Err(e) => {
                proof {
                    lemma_keyed_list_fails(m, all, i + 1);
                }
                return Err(e);
            },
        };
        let ghost entry = (key@, handle.location);
        let ghost before = keyed_views(map@);
        let ghost listed = keyed_list(m, all.take(i as int))->Ok_0;
        let ghost known = index@;
        assert(keyed_list(m, all.take(i + 1)) == Ok::<Seq<(StructKeyView, DwarfUnit)>, ErrorKind>(
            listed.push(entry),
        ));
        let bucket = match index.get(key.name.as_str()) {
            Some(positions) => copy_positions(positions),
            None => Vec::new(),
        };
        assert(known.contains_key(entry.0.name) ==> bucket@ == known[entry.0.name]@);
        assert(!known.contains_key(entry.0.name) ==> bucket@.len() == 0);
        let mut q: usize = 0;
        let mut found: Option<usize> = None;
        while q < bucket.len() && found.is_none()
            invariant
                q <= bucket.len(),
                before == keyed_views(map@),
                known == index@,
                known.contains_key(entry.0.name) ==> bucket@ == known[entry.0.name]@,
                !known.contains_key(entry.0.name) ==> bucket@.len() == 0,
                entry.0 == key@,
                forall|n: Seq<char>, q: int|
                    known.contains_key(n) && 0 <= q < known[n]@.len() ==> (#[trigger] known[n]@[q]) < map@.len()
                        && before[known[n]@[q] as int].0.name == n,
                found is None ==> forall|t: int| 0 <= t < q ==> before[#[trigger] bucket@[t] as int].0 != key@,
                found matches Some(p) ==> p < map@.len() && before[p as int].0 == key@,
            decreases bucket.len() - q + (if found is None { 1int } else { 0int }),
        {
            let p = bucket[q];
            assert(known[entry.0.name]@[q as int] == p);
            if same_key(&map[p].0, &key) {
                found = Some(p);
            } else {
                q += 1;
            }
        }
        match found {
            Some(p) => {
                map.set(p, (key, handle));
                proof {
                    let after = keyed_views(map@);
                    assert(after == before.update(p as int, entry));
                    lemma_map_update(before, listed, p as int, entry);
                    assert forall|j: int| 0 <= j < after.len() implies index@.contains_key(
                        (#[trigger] after[j]).0.name,
                    ) && 0 <= slot[j] < index@[after[j].0.name]@.len() && index@[after[j].0.name]@[slot[j]]
                        == j by {
                        assert(after[j].0.name == before[j].0.name);
                    }
                    assert forall|n: Seq<char>, q: int|
                        index@.contains_key(n) && 0 <= q < index@[n]@.len() implies (#[trigger] index@[n]@[q])
                            < after.len() && after[index@[n]@[q] as int].0.name == n by {
                        assert(after[index@[n]@[q] as int].0.name == before[index@[n]@[q] as int].0.name);
                    }
                }
            },
            None => {
                proof {
                    assert forall|j: int| 0 <= j < before.len() implies before[j].0 != entry.0 by {
                        if before[j].0 == entry.0 {
                            assert(known.contains_key(before[j].0.name));
                            assert(bucket@[slot[j]] == j);
                            assert(before[bucket@[slot[j]] as int].0 != key@);
                        }
                    }
                }
                let position = map.len();
                let mut longer = copy_positions(&bucket);
                longer.push(position);
                index.insert(key.name.clone(), longer);
                map.push((key, handle));
                proof {
                    let after = keyed_views(map@);
                    let name = entry.0.name;
                    assert(after == before.push(entry));
                    lemma_map_push(before, listed, entry);
                    assert(index@ == known.insert(name, longer));
                    assert(longer@ == bucket@.push(position));
                    let old_slot = slot;
                    slot = slot.push(bucket@.len() as int);
                    assert forall|j: int| 0 <= j < after.len() implies index@.contains_key(
                        (#[trigger] after[j]).0.name,
                    ) && 0 <= slot[j] < index@[after[j].0.name]@.len() && index@[after[j].0.name]@[slot[j]]
                        == j by {
                        if j < before.len() {
                            assert(after[j] == before[j]);
                            assert(slot[j] == old_slot[j]);
                            assert(known.contains_key(before[j].0.name));
                            if before[j].0.name == name {
                                assert(longer@[old_slot[j]] == bucket@[old_slot[j]]);
                            }
                        } else {
                            assert(after[j] == entry);
                            assert(slot[j] == bucket@.len());
                            assert(longer@[bucket@.len() as int] == position);
                        }
                    }
                    assert forall|n: Seq<char>, q: int|
                        index@.contains_key(n) && 0 <= q < index@[n]@.len() implies (#[trigger] index@[n]@[q])
                            < after.len() && after[index@[n]@[q] as int].0.name == n by {
                        if n == name {
                            if q < bucket@.len() {
                                assert(longer@[q] == bucket@[q]);
                                assert(known.contains_key(name));
                                assert(known[name]@[q] == bucket@[q]);
                                assert(after[bucket@[q] as int] == before[bucket@[q] as int]);
                            } else {
                                assert(longer@[q] == position);
                                assert(after[position as int] == entry);
                            }
                        } else {
                            assert(known.contains_key(n));
                            assert(index@[n] == known[n]);
                            assert(after[known[n]@[q] as int] == before[known[n]@[q] as int]);
                        }
                    }
                }
            },
        }
        i += 1;
    }
    assert(all.take(i as int) == all);
    Ok(map)
}

/// Turns positions into handles of the type `T`.
pub fn handles_at<T: Tagged>(locations: &Vec<DwarfUnit>) -> (handles: Vec<T>)
    ensures
        locations_of(handles@) == locations@,
{
    let mut handles: Vec<T> = Vec::new();
    let mut i: usize = 0;
    while i < locations.len()
        invariant
            i <= locations.len(),
            locations_of(handles@) == locations@.take(i as int),
        decreases locations.len() - i,
    {
        let ghost before = locations_of(handles@);
        handles.push(T::new(locations[i]));
        assert(locations_of(handles@) == before.push(locations@[i as int]));
        assert(locations@.take(i + 1) == locations@.take(i as int).push(locations@[i as int]));
        i += 1;
    }
    assert(locations@.take(i as int) == locations@);
    handles
}

/// Whether the outcome of a lookup is the one that a contract names: the
/// lookup succeeds, with a handle for the position or with none.
pub open spec fn agrees_lookup<T: HasLocation>(got: Result<Option<T>, Error>, want: Option<DwarfUnit>) -> bool {
    match want {
        Some(location) => got is Ok && got->Ok_0 is Some && got->Ok_0->Some_0.spec_location() == location,
        None => got is Ok && got->Ok_0 is None,
    }
}

/// The index: finding types by tag and name in one pass over `.debug_info`.
pub trait DwarfLookups: DwarfContext + Sized {
    /// Get the first occurrence of debug info of some type with the specified
    /// name. Declarations are passed over. The lookup always succeeds; it
    /// gives `None` where no such type is found.
    fn lookup_type<T: Tagged>(&self, name: String) -> (r: Result<Option<T>, Error>)
        ensures
            agrees_lookup(r, spec_lookup(self.model(), T::spec_tag(), name@)),
    {
        match lookup_entry(self, T::tag(), &name) {
            Some(location) => Ok(Some(T::new(location))),
            None => Ok(None),
        }
    }

    /// Get a map of all debug info of some type by name: for each name the
    /// handle that the pass meets last. No name occurs twice in it. This
    /// always succeeds.
    fn get_named_types_map<T: Tagged>(&self) -> (r: Result<Vec<(String, T)>, Error>)
        ensures
            r is Ok,
            is_map_of(named_views(r->Ok_0@), spec_named_list(self.model(), T::spec_tag())),
    {
        let list = named_entries::<Self, T>(self);
        Ok(map_by_name(&list))
    }

    /// Similar to get_named_types_map but with a more fine grained key, this
    /// catches the cases where a struct with the same name is defined in
    /// multiple places. No key occurs twice in the map. It fails where the
    /// key of a struct cannot be had.
    fn get_fg_named_structs_map(&self) -> (r: Result<Vec<(StructHashKey, Struct)>, Error>)
        ensures
            agrees_keyed_map(r, spec_keyed_structs(self.model())),
    {
        let list = named_entries::<Self, Struct>(self);
        map_by_key(self, &list)
    }

    /// Get a vector of all units of some tag, declarations and DIEs without
    /// a name among them. This always succeeds.
    fn get_units<T: Tagged>(&self) -> (r: Result<Vec<T>, Error>)
        ensures
            r is Ok,
            locations_of(r->Ok_0@) == spec_tagged_entries(self.model(), T::spec_tag()),
    {
        let locations = tagged_entries(self, T::tag());
        Ok(handles_at(&locations))
    }

    /// Get a vector of all debug info of some type with names, in the order
    /// of the pass and with every occurrence of a name. This always
    /// succeeds.
    fn get_named_types<T: Tagged>(&self) -> (r: Result<Vec<(String, T)>, Error>)
        ensures
            r is Ok,
            named_views(r->Ok_0@) == spec_named_list(self.model(), T::spec_tag()),
    {
        Ok(named_entries::<Self, T>(self))
    }
}

impl DwarfLookups for Dwarf<'_> {}

impl DwarfLookups for OwnedDwarf {}

/// Whether the DIE at `location` is indexed under `name` among the DIEs with
/// `tag` of the units at `offsets`: it lies in one of these units, the pass
/// through that unit meets it, it bears `tag`, it is no declaration, and its
/// name is `name`.
pub open spec fn is_indexed_in(
    m: DwarfModel,
    offsets: Seq<usize>,
    tag: u16,
    name: Seq<char>,
    location: DwarfUnit,
) -> bool {
    &&& exists|j: int| 0 <= j < offsets.len() && offsets[j] == location.die_offset
    &&& m.unit(location.die_offset) is Some
    &&& spec_indexed_name(m, m.unit(location.die_offset)->Some_0, location.entry_offset) == Some(name)
    &&& exists|k: int|
        0 <= k < m.unit(location.die_offset)->Some_0.entries.len() && m.unit(
            location.die_offset,
        )->Some_0.entries[k].tag == tag && m.unit(location.die_offset)->Some_0.entries[k].offset
            == location.entry_offset
}

/// Whether the DIE at `location` is indexed under `name` among the DIEs with
/// `tag`: it lies in a unit of `.debug_info`, the pass meets it, it bears
/// `tag`, it is no declaration, and its name is `name`.
pub open spec fn is_indexed(m: DwarfModel, tag: u16, name: Seq<char>, location: DwarfUnit) -> bool {
    is_indexed_in(m, m.headers, tag, name, location)
}

proof fn lemma_named_among_sound(
    m: DwarfModel,
    u: UnitModel,
    entries: Seq<DieHead>,
    die_offset: usize,
    tag: u16,
    i: int,
)
    requires
        0 <= i < named_among(m, u, entries, die_offset, tag).len(),
    ensures
        ({
            let entry = named_among(m, u, entries, die_offset, tag)[i];
            &&& entry.1.die_offset == die_offset
            &&& spec_indexed_name(m, u, entry.1.entry_offset) == Some(entry.0)
            &&& exists|k: int|
                0 <= k < entries.len() && entries[k].tag == tag && entries[k].offset == entry.1.entry_offset
        }),
    decreases entries.len(),
{
    let before = named_among(m, u, entries.drop_last(), die_offset, tag);
    let n = entries.len() - 1;
    if i < before.len() {
        lemma_named_among_sound(m, u, entries.drop_last(), die_offset, tag, i);
        let entry = before[i];
        let k = choose|k: int|
            0 <= k < entries.drop_last().len() && entries.drop_last()[k].tag == tag && entries.drop_last()[k].offset
                == entry.1.entry_offset;
        assert(entries[k] == entries.drop_last()[k]);
    } else {
        assert(entries[n].tag == tag);
    }
}

proof fn lemma_named_among_complete(
    m: DwarfModel,
    u: UnitModel,
    entries: Seq<DieHead>,
    die_offset: usize,
    tag: u16,
    k: int,
)
    requires
        0 <= k < entries.len(),
        entries[k].tag == tag,
        spec_indexed_name(m, u, entries[k].offset) is Some,
    ensures
        exists|i: int|
            0 <= i < named_among(m, u, entries, die_offset, tag).len() && named_among(
                m,
                u,
                entries,
                die_offset,
                tag,
            )[i] == (
                spec_indexed_name(m, u, entries[k].offset)->Some_0,
                DwarfUnit { die_offset, entry_offset: entries[k].offset },
            ),
    decreases entries.len(),
{
    let before = named_among(m, u, entries.drop_last(), die_offset, tag);
    let all = named_among(m, u, entries, die_offset, tag);
    let n = entries.len() - 1;
    if k < n {
        assert(entries.drop_last()[k] == entries[k]);
        lemma_named_among_complete(m, u, entries.drop_last(), die_offset, tag, k);
        let i = choose|i: int|
            0 <= i < before.len() && before[i] == (
                spec_indexed_name(m, u, entries[k].offset)->Some_0,
                DwarfUnit { die_offset, entry_offset: entries[k].offset },
            );
        assert(all[i] == before[i]);
    } else {
        assert(all[all.len() - 1] == (
            spec_indexed_name(m, u, entries[k].offset)->Some_0,
            DwarfUnit { die_offset, entry_offset: entries[k].offset },
        ));
    }
}

proof fn lemma_named_in_units_sound(m: DwarfModel, offsets: Seq<usize>, tag: u16, i: int)
    requires
        0 <= i < named_in_units(m, offsets, tag).len(),
    ensures
        is_indexed_in(m, offsets, tag, named_in_units(m, offsets, tag)[i].0, named_in_units(m, offsets, tag)[i].1),
    decreases offsets.len(),
{
    let before = named_in_units(m, offsets.drop_last(), tag);
    let last = named_in_unit(m, offsets.last(), tag);
    let entry = named_in_units(m, offsets, tag)[i];
    let n = offsets.len() - 1;
    if i < before.len() {
        lemma_named_in_units_sound(m, offsets.drop_last(), tag, i);
        assert(entry == before[i]);
        let j = choose|j: int| 0 <= j < offsets.drop_last().len() && offsets.drop_last()[j] == entry.1.die_offset;
        assert(offsets[j] == entry.1.die_offset);
    } else {
        assert(entry == last[i - before.len()]);
        let u = m.unit(offsets.last())->Some_0;
        lemma_named_among_sound(m, u, u.entries, offsets.last(), tag, i - before.len());
        assert(offsets[n] == entry.1.die_offset);
    }
}

proof fn lemma_named_in_units_complete(
    m: DwarfModel,
    offsets: Seq<usize>,
    tag: u16,
    name: Seq<char>,
    location: DwarfUnit,
)
    requires
        is_indexed_in(m, offsets, tag, name, location),
    ensures
        exists|i: int|
            0 <= i < named_in_units(m, offsets, tag).len() && named_in_units(m, offsets, tag)[i] == (
                name,
                location,
            ),
    decreases offsets.len(),
{
    let before = named_in_units(m, offsets.drop_last(), tag);
    let last = named_in_unit(m, offsets.last(), tag);
    let all = named_in_units(m, offsets, tag);
    let n = offsets.len() - 1;
    if offsets[n] == location.die_offset {
        let u = m.unit(location.die_offset)->Some_0;
        let k = choose|k: int|
            0 <= k < u.entries.len() && u.entries[k].tag == tag && u.entries[k].offset == location.entry_offset;
        lemma_named_among_complete(m, u, u.entries, location.die_offset, tag, k);
        let p = choose|p: int| 0 <= p < last.len() && last[p] == (name, location);
        assert(all[before.len() + p] == last[p]);
    } else {
        let j = choose|j: int| 0 <= j < offsets.len() && offsets[j] == location.die_offset;
        assert(offsets.drop_last()[j] == offsets[j]);
        lemma_named_in_units_complete(m, offsets.drop_last(), tag, name, location);
        let i = choose|i: int| 0 <= i < before.len() && before[i] == (name, location);
        assert(all[i] == before[i]);
    }
}

/// A lookup finds a handle exactly where some DIE with the tag that is no
/// declaration bears the name asked for; the handle found designates such a
/// DIE, and its name is the name asked for.
pub proof fn lemma_lookup_finds_indexed(m: DwarfModel, tag: u16, name: Seq<char>)
    ensures
        spec_lookup(m, tag, name) matches Some(location) ==> is_indexed(m, tag, name, location) && spec_name(
            m,
            location,
        ) == Ok::<Seq<char>, ErrorKind>(name),
        spec_lookup(m, tag, name) is Some <==> exists|location: DwarfUnit| is_indexed(m, tag, name, location),
{
    let offsets = m.headers;
    let list = named_in_units(m, offsets, tag);
    lemma_first_keyed_found(list, name);
    if first_keyed(list, name) is Some {
        let i = choose|i: int| 0 <= i < list.len() && list[i].0 == name && first_keyed(list, name) == Some(list[i].1);
        lemma_named_in_units_sound(m, offsets, tag, i);
        assert(is_indexed(m, tag, name, list[i].1));
    } else {
        assert forall|location: DwarfUnit| !is_indexed(m, tag, name, location) by {
            if is_indexed(m, tag, name, location) {
                lemma_named_in_units_complete(m, offsets, tag, name, location);
                let i = choose|i: int| 0 <= i < list.len() && list[i] == (name, location);
                assert(list[i].0 == name);
            }
        }
    }
}

/// The list of all occurrences and the map from names agree on a name that
/// occurs once: the map has an entry for it, with the handle of its one
/// occurrence.
pub proof fn lemma_map_agrees_on_single_occurrence<K>(
    list: Seq<(K, DwarfUnit)>,
    map: Seq<(K, DwarfUnit)>,
    key: K,
    i: int,
)
    requires
        is_map_of(map, list),
        0 <= i < list.len(),
        list[i].0 == key,
        forall|j: int| 0 <= j < list.len() && j != i ==> list[j].0 != key,
    ensures
        exists|p: int| 0 <= p < map.len() && map[p] == (key, list[i].1),
{
    lemma_single_occurrence(list, key, i);
    lemma_first_keyed_found(map, key);
    assert(last_keyed(map, key) == Some(list[i].1));
    let p = choose|p: int| 0 <= p < map.len() && map[p].0 == key && last_keyed(map, key) == Some(map[p].1);
    assert(map[p] == (key, list[i].1));
}

/// The fine-grained struct map tells two structs apart whose member lists
/// differ in a name or in an offset, whatever their names: each has an entry
/// of its own.
pub proof fn lemma_shapes_are_told_apart(
    list: Seq<(StructKeyView, DwarfUnit)>,
    map: Seq<(StructKeyView, DwarfUnit)>,
    i: int,
    j: int,
)
    requires
        is_map_of(map, list),
        0 <= i < list.len(),
        0 <= j < list.len(),
        list[i].0.members != list[j].0.members,
    ensures
        exists|p: int, q: int|
            0 <= p < map.len() && 0 <= q < map.len() && p != q && map[p].0 == list[i].0 && map[q].0
                == list[j].0,
{
    lemma_map_tells_keys_apart(list, map, i, j);
}

} // verus!
