//! The shape of a struct: holes between members, trailing padding, and
//! members that do not lie at a multiple of their size.
use vstd::prelude::*;
use crate::dwarf::{DwarfContext, DwarfUnit, GimliCU, spec_unit_context, unit_model};
use crate::model::UnitModel;
use crate::types::{spec_get_type, spec_member_location, spec_members, spec_size_of, spec_typed_size};
use crate::types::{Array, Member, Struct, Type, UnitHasMembers, UnitInnerType};
use crate::{Error, ErrorKind};

verus! {

/// Where a member lies in its struct.
#[derive(Clone, Copy, Debug, PartialEq, Eq, Structural)]
pub struct MemberLayout {
    /// The member's offset from the start of the struct, in bytes.
    pub offset: usize,
    /// The member's size in bytes.
    pub size: usize,
    /// The size that the member's natural alignment goes by: the size of one
    /// item for an array, else the member's size.
    pub item_size: usize,
}

/// A summary of alignment data for a Struct, used to determine packed and
/// aligned attributes
#[derive(Debug)]
pub struct AlignmentStats {
    /// A count of gaps, 'holes', in the struct
    pub nr_holes: usize,
    /// A vector containing tuples of (index, hole size)
    pub hole_positions: Vec<(usize, usize)>,
    /// The sum of unused bytes from holes in the struct
    pub sum_holes: usize,
    /// The sum of the sizes of members in the struct
    pub sum_member_size: usize,
    /// The amount of trailing unused bytes
    pub padding: usize,
    /// The number of times a member was aligned with less than its natural
    /// alignment, e.g. an 32-bit int was not 4-byte aligned
    pub nr_unnat_alignment: usize,
}

/// The alignment data of a struct as mathematical values.
pub struct StatsView {
    pub nr_holes: nat,
    pub hole_positions: Seq<(usize, usize)>,
    pub sum_holes: nat,
    pub sum_member_size: nat,
    pub padding: nat,
    pub nr_unnat_alignment: nat,
}

impl View for AlignmentStats {
    type V = StatsView;

    open spec fn view(&self) -> StatsView {
        StatsView {
            nr_holes: self.nr_holes as nat,
            hole_positions: self.hole_positions@,
            sum_holes: self.sum_holes as nat,
            sum_member_size: self.sum_member_size as nat,
            padding: self.padding as nat,
            nr_unnat_alignment: self.nr_unnat_alignment as nat,
        }
    }
}

/// What a pass over the members of a struct has found so far.
pub struct LayoutPass {
    pub nr_holes: nat,
    pub hole_positions: Seq<(usize, usize)>,
    pub sum_holes: nat,
    pub sum_member_size: nat,
    pub nr_unnat_alignment: nat,
    /// The offset of the member that the next one is held against.
    pub prev_offset: usize,
    /// The size of that member.
    pub prev_size: usize,
}

/// The bytes between the end of a member and `offset`: none where the member
/// reaches up to `offset` or beyond.
pub open spec fn gap(prev_offset: usize, prev_size: usize, offset: usize) -> nat {
    if offset > prev_offset + prev_size {
        (offset - prev_offset - prev_size) as nat
    } else {
        0
    }
}

/// A pass before its first member.
pub open spec fn pass_start() -> LayoutPass {
    LayoutPass {
        nr_holes: 0,
        hole_positions: Seq::empty(),
        sum_holes: 0,
        sum_member_size: 0,
        nr_unnat_alignment: 0,
        prev_offset: 0,
        prev_size: 0,
    }
}

/// The pass after the member `m`, the one with index `idx`. Every member
/// adds its size. The first member only gives the later ones something to be
/// held against. A later member with no size, or whose items have none, is
/// passed over. Any other leaves a hole where it starts behind the end of the
/// member before it, and is unnaturally aligned where its offset is no
/// multiple of its item size.
pub open spec fn pass_step(pass: LayoutPass, idx: nat, m: MemberLayout) -> LayoutPass {
    let sum_member_size = (pass.sum_member_size + m.size) as nat;
    if idx == 0 {
        LayoutPass { sum_member_size, prev_offset: m.offset, prev_size: m.size, ..pass }
    } else if m.size == 0 || m.item_size == 0 {
        LayoutPass { sum_member_size, ..pass }
    } else {
        let hole = gap(pass.prev_offset, pass.prev_size, m.offset);
        LayoutPass {
            nr_holes: if hole > 0 { (pass.nr_holes + 1) as nat } else { pass.nr_holes },
            hole_positions: if hole > 0 {
                pass.hole_positions.push((idx as usize, hole as usize))
            } else {
                pass.hole_positions
            },
            sum_holes: (pass.sum_holes + hole) as nat,
            sum_member_size,
            nr_unnat_alignment: if m.offset % m.item_size != 0 {
                (pass.nr_unnat_alignment + 1) as nat
            } else {
                pass.nr_unnat_alignment
            },
            prev_offset: m.offset,
            prev_size: m.size,
        }
    }
}

/// The pass over all of `members`, in order.
pub open spec fn pass_over(members: Seq<MemberLayout>) -> LayoutPass
    decreases members.len(),
{
    if members.len() == 0 {
        pass_start()
    } else {
        pass_step(pass_over(members.drop_last()), (members.len() - 1) as nat, members.last())
    }
}

/// The alignment data of a struct of `byte_size` bytes with these members.
/// The padding is what lies between the end of the last member that the pass
/// held others against and the end of the struct.
pub open spec fn spec_alignment_stats(members: Seq<MemberLayout>, byte_size: usize) -> StatsView {
    let pass = pass_over(members);
    StatsView {
        nr_holes: pass.nr_holes,
        hole_positions: pass.hole_positions,
        sum_holes: pass.sum_holes,
        sum_member_size: pass.sum_member_size,
        padding: gap(pass.prev_offset, pass.prev_size, byte_size),
        nr_unnat_alignment: pass.nr_unnat_alignment,
    }
}

/// The counts of a pass never exceed the number of members passed, and the
/// sums only grow.
proof fn lemma_pass_grows(members: Seq<MemberLayout>, n: int)
    requires
        0 <= n <= members.len(),
    ensures
        pass_over(members.take(n)).nr_holes <= n,
        pass_over(members.take(n)).nr_unnat_alignment <= n,
        pass_over(members.take(n)).hole_positions.len() == pass_over(members.take(n)).nr_holes,
        pass_over(members.take(n)).sum_holes <= pass_over(members).sum_holes,
        pass_over(members.take(n)).sum_member_size <= pass_over(members).sum_member_size,
    decreases members.len() - n, n,
{
    if n > 0 {
        assert(members.take(n).drop_last() == members.take(n - 1));
        lemma_pass_counts(members, n - 1);
    }
    if n < members.len() {
        assert(members.take(n + 1).drop_last() == members.take(n));
        lemma_pass_grows(members, n + 1);
    } else {
        assert(members.take(n) == members);
    }
}

proof fn lemma_pass_counts(members: Seq<MemberLayout>, n: int)
    requires
        0 <= n <= members.len(),
    ensures
        pass_over(members.take(n)).nr_holes <= n,
        pass_over(members.take(n)).nr_unnat_alignment <= n,
        pass_over(members.take(n)).hole_positions.len() == pass_over(members.take(n)).nr_holes,
    decreases n,
{
    if n > 0 {
        assert(members.take(n).drop_last() == members.take(n - 1));
        lemma_pass_counts(members, n - 1);
    }
}

impl AlignmentStats {
    /// Computes the alignment data of a struct of `byte_size` bytes from the
    /// layout of its members. Fails where a sum does not fit the machine's
    /// word, and only there.
    pub fn from_layout(members: &Vec<MemberLayout>, byte_size: usize) -> (r: Result<AlignmentStats, Error>)
        ensures
            match r {
                Ok(stats) => stats@ == spec_alignment_stats(members@, byte_size),
                Err(e) => e@ == ErrorKind::InvalidAttributeError && (spec_alignment_stats(
                    members@,
                    byte_size,
                ).sum_member_size > usize::MAX || spec_alignment_stats(members@, byte_size).sum_holes
                    > usize::MAX),
            },
    {
        let mut nr_holes: usize = 0;
        let mut hole_positions: Vec<(usize, usize)> = Vec::new();
        let mut sum_holes: usize = 0;
        let mut sum_member_size: usize = 0;
        let mut nr_unnat_alignment: usize = 0;
        let mut prev_offset: usize = 0;
        let mut prev_size: usize = 0;
        let mut idx: usize = 0;
        while idx < members.len()
            invariant
                idx <= members.len(),
                pass_over(members@.take(idx as int)) == (LayoutPass {
                    nr_holes: nr_holes as nat,
                    hole_positions: hole_positions@,
                    sum_holes: sum_holes as nat,
                    sum_member_size: sum_member_size as nat,
                    nr_unnat_alignment: nr_unnat_alignment as nat,
                    prev_offset,
                    prev_size,
                }),
            decreases members.len() - idx,
        {
            let m = members[idx];
            proof {
                assert(members@.take(idx + 1).drop_last() == members@.take(idx as int));
                lemma_pass_grows(members@, idx as int);
                lemma_pass_grows(members@, idx + 1);
            }
            sum_member_size = match sum_member_size.checked_add(m.size) {
                Some(sum) => sum,
                None => {
                    return Err(Error::InvalidAttributeError);
                },
            };
            if idx == 0 {
                prev_offset = m.offset;
                prev_size = m.size;
            } else if m.size == 0 || m.item_size == 0 {
            } else {
                let hole = hole_before(prev_offset, prev_size, m.offset);
                sum_holes = match sum_holes.checked_add(hole) {
                    Some(sum) => sum,
                    None => {
                        return Err(Error::InvalidAttributeError);
                    },
                };
                if hole > 0 {
                    nr_holes += 1;
                    hole_positions.push((idx, hole));
                }
                if m.offset % m.item_size != 0 {
                    nr_unnat_alignment += 1;
                }
                prev_offset = m.offset;
                prev_size = m.size;
            }
            idx += 1;
        }
        assert(members@.take(idx as int) == members@);
        let padding = hole_before(prev_offset, prev_size, byte_size);
        Ok(AlignmentStats { nr_holes, hole_positions, sum_holes, sum_member_size, padding, nr_unnat_alignment })
    }
}

/// The bytes between the end of a member and `offset`.
fn hole_before(prev_offset: usize, prev_size: usize, offset: usize) -> (hole: usize)
    ensures
        hole == gap(prev_offset, prev_size, offset),
{
    match prev_offset.checked_add(prev_size) {
        Some(end) => if offset > end {
            offset - end
        } else {
            0
        },
        None => 0,
    }
}

/// Whether the members lie one behind the other from the start of a struct
/// of `byte_size` bytes: the first at offset 0, each at a greater offset than
/// the one before it and not before the end of any earlier one, and all of
/// them within the struct; and none has a size while its items have none.
pub open spec fn laid_out_in_order(members: Seq<MemberLayout>, byte_size: usize) -> bool {
    &&& members.len() > 0 ==> members[0].offset == 0
    &&& forall|i: int, j: int|
        0 <= i < j < members.len() ==> members[i].offset < members[j].offset && members[i].offset
            + members[i].size <= members[j].offset
    &&& forall|i: int| 0 <= i < members.len() ==> #[trigger] members[i].offset + members[i].size <= byte_size
    &&& forall|i: int| 0 <= i < members.len() && #[trigger] members[i].size > 0 ==> members[i].item_size > 0
}

proof fn lemma_pass_in_order(members: Seq<MemberLayout>, byte_size: usize, n: int)
    requires
        laid_out_in_order(members, byte_size),
        0 <= n <= members.len(),
    ensures
        ({
            let pass = pass_over(members.take(n));
            &&& pass.sum_member_size + pass.sum_holes == pass.prev_offset + pass.prev_size
            &&& pass.prev_offset + pass.prev_size <= byte_size
            &&& forall|j: int| n <= j < members.len() ==> pass.prev_offset + pass.prev_size <= members[j].offset
            &&& n > 0 ==> exists|i: int| 0 <= i < n && pass.prev_offset == members[i].offset && pass.prev_size == members[i].size
        }),
    decreases n,
{
    if n > 0 {
        assert(members.take(n).drop_last() == members.take(n - 1));
        lemma_pass_in_order(members, byte_size, n - 1);
        let before = pass_over(members.take(n - 1));
        let m = members[n - 1];
        assert(members.take(n).last() == m);
        let pass = pass_over(members.take(n));
        assert(pass == pass_step(before, (n - 1) as nat, m));
        if n == 1 {
            assert(m.offset == 0);
            assert(pass.prev_offset == members[0].offset && pass.prev_size == members[0].size);
        } else if m.size == 0 || m.item_size == 0 {
            assert(m.size == 0);
            let i = choose|i: int| 0 <= i < n - 1 && before.prev_offset == members[i].offset && before.prev_size == members[i].size;
            assert(0 <= i < n && pass.prev_offset == members[i].offset && pass.prev_size == members[i].size);
        } else {
            assert(pass.prev_offset == members[n - 1].offset && pass.prev_size == members[n - 1].size);
        }
    }
}

/// In a struct whose members lie one behind the other from its start, the
/// sizes of the members, the holes between them and the padding behind them
/// add up to the size of the struct.
pub proof fn lemma_members_holes_padding_fill_struct(members: Seq<MemberLayout>, byte_size: usize)
    requires
        laid_out_in_order(members, byte_size),
    ensures
        ({
            let stats = spec_alignment_stats(members, byte_size);
            stats.sum_member_size + stats.sum_holes + stats.padding == byte_size
        }),
{
    lemma_pass_in_order(members, byte_size, members.len() as int);
    assert(members.take(members.len() as int) == members);
}

/// The offset of the member at `offset` within its struct: its member
/// location, and 0 where it bears none, as bit-fields that share a storage
/// unit may.
pub open spec fn spec_offset_in_struct(u: UnitModel, offset: usize) -> Result<usize, ErrorKind> {
    match spec_member_location(u, offset) {
        Ok(at) => Ok(at),
        Err(ErrorKind::MemberLocationAttributeNotFound) => Ok(0usize),
        Err(e) => Err(e),
    }
}

impl Member {
    /// The offset of the member within its struct, read in an already
    /// resolved unit: its member location, and 0 where it bears none.
    pub fn u_offset_in_struct(&self, unit: &GimliCU<'_>) -> (r: Result<usize, Error>)
        ensures
            crate::agrees(r, spec_offset_in_struct(unit_model(unit), self.location.entry_offset)),
    {
        match self.u_member_location(unit) {
            Ok(at) => Ok(at),
            Err(Error::MemberLocationAttributeNotFound) => Ok(0),
            Err(e) => Err(e),
        }
    }
}

/// The layout of `member`. The first member of a struct only seeds the pass,
/// so its item size is its size; a later member that is an array has the
/// size of its items.
pub open spec fn spec_member_layout(u: UnitModel, member: Member, first: bool) -> Result<MemberLayout, ErrorKind> {
    match spec_offset_in_struct(u, member.location.entry_offset) {
        Ok(offset) => match spec_typed_size(u, member.location) {
            Ok(size) => if first {
                Ok(MemberLayout { offset, size, item_size: size })
            } else {
                match spec_get_type(u, member.location) {
                    Ok(Type::Array(array)) => match spec_typed_size(u, array.location) {
                        Ok(item_size) => Ok(MemberLayout { offset, size, item_size }),
                        Err(e) => Err(e),
                    },
                    Ok(_) => Ok(MemberLayout { offset, size, item_size: size }),
                    Err(e) => Err(e),
                }
            },
            Err(e) => Err(e),
        },
        Err(e) => Err(e),
    }
}

/// The layouts of `members` in order. The first member whose layout cannot
/// be had decides the error.
pub open spec fn layouts_of(u: UnitModel, members: Seq<Member>) -> Result<Seq<MemberLayout>, ErrorKind>
    decreases members.len(),
{
    if members.len() == 0 {
        Ok(Seq::empty())
    } else {
        match layouts_of(u, members.drop_last()) {
            Ok(rest) => match spec_member_layout(u, members.last(), members.len() == 1) {
                Ok(layout) => Ok(rest.push(layout)),
                Err(e) => Err(e),
            },
            Err(e) => Err(e),
        }
    }
}

proof fn lemma_layouts_fail(u: UnitModel, members: Seq<Member>, n: int)
    requires
        0 <= n <= members.len(),
        layouts_of(u, members.take(n)) is Err,
    ensures
        layouts_of(u, members) == layouts_of(u, members.take(n)),
    decreases members.len() - n,
{
    if n < members.len() {
        assert(members.take(n + 1).drop_last() == members.take(n));
        lemma_layouts_fail(u, members, n + 1);
    } else {
        assert(members.take(n) == members);
    }
}

/// The alignment data of the struct at `location`: that of its members'
/// layouts and its byte size. A sum that does not fit the machine's word is
/// invalid.
pub open spec fn spec_struct_stats(u: UnitModel, location: DwarfUnit) -> Result<StatsView, ErrorKind> {
    match spec_members(u, location) {
        Ok(members) => match layouts_of(u, members) {
            Ok(layouts) => match spec_size_of(u, Type::Struct(Struct { location })) {
                Ok(byte_size) => {
                    let stats = spec_alignment_stats(layouts, byte_size);
                    if stats.sum_member_size > usize::MAX || stats.sum_holes > usize::MAX {
                        Err(ErrorKind::InvalidAttributeError)
                    } else {
                        Ok(stats)
                    }
                },
                Err(e) => Err(e),
            },
            Err(e) => Err(e),
        },
        Err(e) => Err(e),
    }
}

/// Whether alignment data is what a contract names.
pub open spec fn agrees_stats(got: Result<AlignmentStats, Error>, want: Result<StatsView, ErrorKind>) -> bool {
    match want {
        Ok(v) => got is Ok && got->Ok_0@ == v,
        Err(k) => got is Err && got->Err_0@ == k,
    }
}

fn member_layout(unit: &GimliCU<'_>, member: Member, first: bool) -> (r: Result<MemberLayout, Error>)
    ensures
        crate::agrees(r, spec_member_layout(unit_model(unit), member, first)),
{
    let offset = match member.u_offset_in_struct(unit) {
        Ok(offset) => offset,
        Err(e) => {
            return Err(e);
        },
    };
    let size = match member.u_byte_size(unit) {
        Ok(size) => size,
        Err(e) => {
            return Err(e);
        },
    };
    if first {
        return Ok(MemberLayout { offset, size, item_size: size });
    }
    match member.u_get_type(unit) {
        Ok(Type::Array(array)) => match array.u_entry_size(unit) {
            Ok(item_size) => Ok(MemberLayout { offset, size, item_size }),
            Err(e) => Err(e),
        },
        Ok(_) => Ok(MemberLayout { offset, size, item_size: size }),
        Err(e) => Err(e),
    }
}

impl Struct {
    /// The alignment data of the struct, read in an already resolved unit.
    pub fn u_alignment_stats(&self, unit: &GimliCU<'_>) -> (r: Result<AlignmentStats, Error>)
        ensures
            agrees_stats(r, spec_struct_stats(unit_model(unit), self.location)),
    {
        let members = match self.u_members(unit) {
            Ok(members) => members,
            Err(e) => {
                return Err(e);
            },
        };
        let ghost u = unit_model(unit);
        let mut layouts: Vec<MemberLayout> = Vec::new();
        let mut idx: usize = 0;
        while idx < members.len()
            invariant
                idx <= members.len(),
                u == unit_model(unit),
                spec_members(u, self.location) == Ok::<Seq<Member>, ErrorKind>(members@),
                layouts_of(u, members@.take(idx as int)) == Ok::<Seq<MemberLayout>, ErrorKind>(layouts@),
            decreases members.len() - idx,
        {
            assert(members@.take(idx + 1).drop_last() == members@.take(idx as int));
            match member_layout(unit, members[idx], idx == 0) {
                Ok(layout) => {
                    layouts.push(layout);
                },
                Err(e) => {
                    proof {
                        lemma_layouts_fail(u, members@, idx + 1);
                    }
                    return Err(e);
                },
            }
            idx += 1;
        }
        assert(members@.take(idx as int) == members@);
        match self.u_byte_size(unit) {
            Ok(byte_size) => AlignmentStats::from_layout(&layouts, byte_size),
            Err(e) => Err(e),
        }
    }

    /// The holes, the padding and the unnaturally aligned members of the
    /// struct.
    pub fn alignment_stats<D: DwarfContext>(&self, dwarf: &D) -> (r: Result<AlignmentStats, Error>)
        ensures
            agrees_stats(
                r,
                match spec_unit_context(dwarf.model(), self.location) {
                    Ok(u) => spec_struct_stats(u, self.location),
                    Err(e) => Err(e),
                },
            ),
    {
        match dwarf.unit_context(&self.location) {
            Ok(unit) => self.u_alignment_stats(&unit),
            Err(e) => Err(e),
        }
    }
}

} // verus!
