//! Queue selection model.
//!
//! Maps logical operations (graphics, compute, transfer, present) to physical
//! queue-family indices and per-family queue counts and priorities. Multiple
//! operations may share one family; each insertion reserves a fresh
//! (family, offset) slot, so distinct operations never collide.
//!
//! Priorities are carried as integer hundredths of the native unit interval
//! (100 stands for the full priority 1.0), so that the model stays in exact
//! arithmetic; the caller that talks to the driver divides by 100.

use vstd::prelude::*;

use crate::errors::Error;

verus! {

/// Operation index for graphics work.
pub const GRAPHICS: usize = 0;
/// Operation index for compute work.
pub const COMPUTE: usize = 1;
/// Operation index for transfer work.
pub const TRANSFER: usize = 2;
/// Operation index for presentation.
pub const PRESENT: usize = 3;
/// Number of logical operations.
pub const COUNT: usize = 4;

/// The graphics bit of a native queue-flags word.
pub const QUEUE_FLAG_GRAPHICS: u32 = 1;
/// The compute bit of a native queue-flags word.
pub const QUEUE_FLAG_COMPUTE: u32 = 2;
/// The transfer bit of a native queue-flags word.
pub const QUEUE_FLAG_TRANSFER: u32 = 4;

/// The default queue priority, in hundredths: the full priority 1.0.
pub const DEFAULT_QUEUE_PRIORITY: u32 = 100;

/// Maps a queue-flags word holding exactly one known capability bit to the
/// operation index it stands for; any other word maps to `COUNT`.
pub fn queue_flags_to_op_index(flags: u32) -> (r: usize)
    ensures
        flags == QUEUE_FLAG_GRAPHICS ==> r == GRAPHICS,
        flags == QUEUE_FLAG_COMPUTE ==> r == COMPUTE,
        flags == QUEUE_FLAG_TRANSFER ==> r == TRANSFER,
        flags != QUEUE_FLAG_GRAPHICS && flags != QUEUE_FLAG_COMPUTE && flags != QUEUE_FLAG_TRANSFER
            ==> r == COUNT,
{
    if flags == QUEUE_FLAG_GRAPHICS {
        GRAPHICS
    } else if flags == QUEUE_FLAG_COMPUTE {
        COMPUTE
    } else if flags == QUEUE_FLAG_TRANSFER {
        TRANSFER
    } else {
        COUNT
    }
}

/// The queues to be created from a single physical queue family: how many,
/// and one priority (in hundredths) per queue slot.
#[derive(Debug)]
pub struct QueueFamily {
    /// Number of queues requested from this family.
    pub count: u32,
    /// One priority per queue slot, in hundredths of the unit interval.
    pub priorities: Vec<u32>,
}

impl QueueFamily {
    /// A family allocation is well formed when it has one priority per queue
    /// slot, at least one slot, and every priority within the unit interval
    /// (at most 100 hundredths).
    pub open spec fn wf(&self) -> bool {
        &&& self.count as int == self.priorities@.len()
        &&& self.count >= 1
        &&& forall|i: int|
            0 <= i < self.priorities@.len() ==> (#[trigger] self.priorities@[i])
                <= DEFAULT_QUEUE_PRIORITY
    }

    /// Builds a family allocation from a count and matching priorities.
    pub fn new(count: u32, priorities: Vec<u32>) -> (r: Self)
        ensures
            r.count == count,
            r.priorities == priorities,
    {
        Self { count, priorities }
    }

    /// A family allocation of a single queue at the default priority.
    pub fn single() -> (r: Self)
        ensures
            r.count == 1u32,
            r.priorities@ =~= seq![DEFAULT_QUEUE_PRIORITY],
            r.wf(),
    {
        let mut priorities: Vec<u32> = Vec::new();
        priorities.push(DEFAULT_QUEUE_PRIORITY);
        Self::new(1, priorities)
    }
}

/// A specific queue slot within a created family: the family index and the
/// offset of the queue inside that family.
#[derive(Clone, Copy, Debug, PartialEq, Eq, Structural)]
pub struct QueueFamilyHandle {
    /// Physical queue-family index.
    pub index: u32,
    /// Offset of the queue within the family.
    pub offset: u32,
}

/// Per-operation queue handles retrieved from a logical device, indexed by
/// operation; a handle is an opaque identifier chosen by the caller that
/// talks to the driver.
#[derive(Debug)]
pub struct QueueHandles {
    /// One optional queue handle per logical operation.
    pub queues: Vec<Option<u64>>,
}

impl QueueHandles {
    /// An empty handle table with one unassigned slot per operation.
    pub fn new() -> (r: Self)
        ensures
            r.queues@.len() == COUNT,
            forall|i: int| 0 <= i < COUNT ==> r.queues@[i] is None,
    {
        let mut queues: Vec<Option<u64>> = Vec::new();
        let mut i: usize = 0;
        while i < COUNT
            invariant
                queues@.len() == i,
                i <= COUNT,
                forall|j: int| 0 <= j < i ==> queues@[j] is None,
            decreases COUNT - i,
        {
            queues.push(None);
            i = i + 1;
        }
        Self { queues }
    }
}

/// Total number of queue slots over all allocated families.
pub open spec fn spec_family_queue_total(fams: Seq<Option<QueueFamily>>) -> int
    decreases fams.len(),
{
    if fams.len() == 0 {
        0
    } else {
        spec_family_queue_total(fams.drop_last()) + spec_family_term(fams.last())
    }
}

/// The number of queue slots one family entry contributes.
pub open spec fn spec_family_term(e: Option<QueueFamily>) -> int {
    match e {
        Option::Some(q) => q.count as int,
        Option::None => 0,
    }
}

/// Number of operations that have an assignment.
pub open spec fn spec_assigned_total(ops: Seq<Option<QueueFamilyHandle>>) -> int
    decreases ops.len(),
{
    if ops.len() == 0 {
        0
    } else {
        spec_assigned_total(ops.drop_last()) + (if ops.last() is Some {
            1int
        } else {
            0int
        })
    }
}

proof fn lemma_family_total_nonneg(fams: Seq<Option<QueueFamily>>)
    ensures
        spec_family_queue_total(fams) >= 0,
    decreases fams.len(),
{
    if fams.len() > 0 {
        lemma_family_total_nonneg(fams.drop_last());
    }
}

/// Updating one family entry changes the slot total by the difference of the
/// entry's contributions.
proof fn lemma_family_total_update(fams: Seq<Option<QueueFamily>>, i: int, v: Option<QueueFamily>)
    requires
        0 <= i < fams.len(),
    ensures
        spec_family_queue_total(fams.update(i, v)) == spec_family_queue_total(fams)
            - spec_family_term(fams[i]) + spec_family_term(v),
    decreases fams.len(),
{
    if i == fams.len() - 1 {
        assert(fams.update(i, v).drop_last() =~= fams.drop_last());
        assert(fams.update(i, v).last() == v);
    } else {
        assert(fams.update(i, v).drop_last() =~= fams.drop_last().update(i, v));
        assert(fams.update(i, v).last() == fams.last());
        lemma_family_total_update(fams.drop_last(), i, v);
    }
}

/// Each family entry contributes no more than the total.
proof fn lemma_family_term_le_total(fams: Seq<Option<QueueFamily>>, i: int)
    requires
        0 <= i < fams.len(),
    ensures
        spec_family_term(fams[i]) <= spec_family_queue_total(fams),
    decreases fams.len(),
{
    if i == fams.len() - 1 {
        lemma_family_total_nonneg(fams.drop_last());
    } else {
        lemma_family_term_le_total(fams.drop_last(), i);
        assert(fams.drop_last()[i] == fams[i]);
    }
}

/// Updating one operation entry changes the assigned total by the difference
/// of the entries' contributions.
proof fn lemma_assigned_total_update(
    ops: Seq<Option<QueueFamilyHandle>>,
    i: int,
    v: Option<QueueFamilyHandle>,
)
    requires
        0 <= i < ops.len(),
    ensures
        spec_assigned_total(ops.update(i, v)) == spec_assigned_total(ops) - (if ops[i] is Some {
            1int
        } else {
            0int
        }) + (if v is Some {
            1int
        } else {
            0int
        }),
    decreases ops.len(),
{
    if i == ops.len() - 1 {
        assert(ops.update(i, v).drop_last() =~= ops.drop_last());
        assert(ops.update(i, v).last() == v);
    } else {
        assert(ops.update(i, v).drop_last() =~= ops.drop_last().update(i, v));
        assert(ops.update(i, v).last() == ops.last());
        lemma_assigned_total_update(ops.drop_last(), i, v);
    }
}

/// At most one assignment per operation slot.
proof fn lemma_assigned_le_len(ops: Seq<Option<QueueFamilyHandle>>)
    ensures
        0 <= spec_assigned_total(ops) <= ops.len(),
    decreases ops.len(),
{
    if ops.len() > 0 {
        lemma_assigned_le_len(ops.drop_last());
    }
}

/// Mapping from physical queue-family index to requested queues, and from
/// logical operation to the queue slot it was assigned.
#[derive(Debug)]
pub struct QueueSelections {
    /// Indexed by physical queue-family index.
    pub families: Vec<Option<QueueFamily>>,
    /// Indexed by operation; yields the assigned family index and offset.
    pub operations: Vec<Option<QueueFamilyHandle>>,
}

impl QueueSelections {
    /// Well-formedness: one operation slot per logical operation; every
    /// assignment points into an allocated family, at an offset below that
    /// family's queue count; distinct operations hold distinct
    /// (family, offset) slots; and the total of allocated queue slots equals
    /// the number of assigned operations.
    pub open spec fn wf(&self) -> bool {
        &&& self.operations@.len() == COUNT
        &&& forall|f: int|
            0 <= f < self.families@.len() && (#[trigger] self.families@[f]) is Some
                ==> self.families@[f]->0.wf()
        &&& forall|op: int|
            0 <= op < COUNT && (#[trigger] self.operations@[op]) is Some ==> {
                &&& self.operations@[op]->0.index < self.families@.len()
                &&& self.families@[self.operations@[op]->0.index as int] is Some
                &&& self.operations@[op]->0.offset < self.families@[self.operations@[
                    op
                ]->0.index as int]->0.count
            }
        &&& forall|a: int, b: int|
            #![trigger self.operations@[a], self.operations@[b]]
            0 <= a < COUNT && 0 <= b < COUNT && a != b && self.operations@[a] is Some
                && self.operations@[b] is Some ==> self.operations@[a]->0 != self.operations@[b]->0
        &&& spec_family_queue_total(self.families@) == spec_assigned_total(self.operations@)
    }

    /// A fresh selection over `family_count` physical families, with no
    /// queues requested and no operation assigned.
    pub fn new(family_count: u32) -> (r: Self)
        ensures
            r.wf(),
            r.families@.len() == family_count,
            forall|f: int| 0 <= f < family_count ==> r.families@[f] is None,
            forall|op: int| 0 <= op < COUNT ==> r.operations@[op] is None,
    {
        let mut families: Vec<Option<QueueFamily>> = Vec::new();
        let mut i: u32 = 0;
        while i < family_count
            invariant
                families@.len() == i,
                i <= family_count,
                forall|j: int| 0 <= j < i ==> families@[j] is None,
                spec_family_queue_total(families@) == 0,
            decreases family_count - i,
        {
            let ghost before = families@;
            families.push(None);
            proof {
                assert(families@.drop_last() =~= before);
            }
            i = i + 1;
        }
        let mut operations: Vec<Option<QueueFamilyHandle>> = Vec::new();
        let mut j: usize = 0;
        while j < COUNT
            invariant
                operations@.len() == j,
                j <= COUNT,
                forall|k: int| 0 <= k < j ==> operations@[k] is None,
                spec_assigned_total(operations@) == 0,
            decreases COUNT - j,
        {
            let ghost before = operations@;
            operations.push(None);
            proof {
                assert(operations@.drop_last() =~= before);
            }
            j = j + 1;
        }
        Self { families, operations }
    }

    /// Assigns `operation` a fresh queue slot in `family_index`.
    ///
    /// Fails iff the operation already has an assignment, leaving the
    /// selection unchanged. Otherwise, if the family already has an
    /// allocation, the operation takes a new slot at the end of it (count
    /// grows by one and a default priority is appended); if it has none, the
    /// family is allocated with a single default-priority queue at offset 0.
    pub fn insert_operation(&mut self, operation: u8, family_index: u32) -> (r: Result<(), Error>)
        requires
            old(self).wf(),
            (operation as usize) < COUNT,
            (family_index as int) < old(self).families@.len(),
        ensures
            final(self).wf(),
            final(self).families@.len() == old(self).families@.len(),
            match r {
                Result::Err(e) => {
                    &&& e == Error::OperationAlreadyAssigned
                    &&& old(self).operations@[operation as int] is Some
                    &&& *final(self) == *old(self)
                },
                Result::Ok(u) => {
                    &&& old(self).operations@[operation as int] is None
                    &&& match old(self).families@[family_index as int] {
                        Option::Some(qf) => {
                            &&& final(self).operations@ == old(self).operations@.update(
                                operation as int,
                                Some((QueueFamilyHandle { index: family_index, offset: qf.count })),
                            )
                            &&& final(self).families@[family_index as int] is Some
                            &&& final(self).families@[family_index as int]->0.count == qf.count
                                + 1
                            &&& final(self).families@[family_index as int]->0.priorities@
                                == qf.priorities@.push(DEFAULT_QUEUE_PRIORITY)
                        },
                        Option::None => {
                            &&& final(self).operations@ == old(self).operations@.update(
                                operation as int,
                                Some((QueueFamilyHandle { index: family_index, offset: 0 })),
                            )
                            &&& final(self).families@[family_index as int] is Some
                            &&& final(self).families@[family_index as int]->0.count == 1
                            &&& final(self).families@[family_index as int]->0.priorities@ =~= seq![
                                DEFAULT_QUEUE_PRIORITY,
                            ]
                        },
                    }
                    &&& forall|f: int|
                        0 <= f < old(self).families@.len() && f != family_index
                            ==> final(self).families@[f] == old(self).families@[f]
                },
            },
    {
        if self.operations[operation as usize].is_some() {
            return Err(Error::OperationAlreadyAssigned);
        }
        proof {
            lemma_family_term_le_total(self.families@, family_index as int);
            lemma_assigned_le_len(self.operations@);
            lemma_family_total_update(
                self.families@,
                family_index as int,
                self.families@[family_index as int],
            );
            lemma_assigned_total_update(
                self.operations@,
                operation as int,
                self.operations@[operation as int],
            );
        }
        let taken = self.families[family_index as usize].take();
        match taken {
            Some(mut qf) => {
                let offset = qf.count;
                self.operations[operation as usize] = Some(
                    QueueFamilyHandle { index: family_index, offset },
                );
                qf.count = qf.count + 1;
                qf.priorities.push(DEFAULT_QUEUE_PRIORITY);
                self.families[family_index as usize] = Some(qf);
                proof {
                    lemma_family_total_update(
                        old(self).families@,
                        family_index as int,
                        Option::None,
                    );
                    lemma_family_total_update(
                        old(self).families@.update(family_index as int, Option::None),
                        family_index as int,
                        final(self).families@[family_index as int],
                    );
                    assert(old(self).families@.update(family_index as int, Option::None).update(
                        family_index as int,
                        final(self).families@[family_index as int],
                    ) =~= final(self).families@);
                    lemma_assigned_total_update(
                        old(self).operations@,
                        operation as int,
                        final(self).operations@[operation as int],
                    );
                }
                Ok(())
            },
            None => {
                self.operations[operation as usize] = Some(
                    QueueFamilyHandle { index: family_index, offset: 0 },
                );
                self.families[family_index as usize] = Some(QueueFamily::single());
                proof {
                    lemma_family_total_update(
                        old(self).families@,
                        family_index as int,
                        Option::None,
                    );
                    lemma_family_total_update(
                        old(self).families@.update(family_index as int, Option::None),
                        family_index as int,
                        final(self).families@[family_index as int],
                    );
                    assert(old(self).families@.update(family_index as int, Option::None).update(
                        family_index as int,
                        final(self).families@[family_index as int],
                    ) =~= final(self).families@);
                    lemma_assigned_total_update(
                        old(self).operations@,
                        operation as int,
                        final(self).operations@[operation as int],
                    );
                }
                Ok(())
            },
        }
    }
}

/// One entry of the per-family device-queue creation list: a family index,
/// the number of queues to create there, and their priorities in hundredths.
#[derive(Debug)]
pub struct QueueCreateInfo {
    /// Physical queue-family index the entry speaks of.
    pub queue_family_index: u32,
    /// Number of queues to create from that family.
    pub queue_count: u32,
    /// One priority per queue, in hundredths of the unit interval.
    pub queue_priorities: Vec<u32>,
}

/// Copies a priority list.
fn copy_priorities(v: &Vec<u32>) -> (r: Vec<u32>)
    ensures
        r@ == v@,
{
    let mut r: Vec<u32> = Vec::new();
    let mut i: usize = 0;
    while i < v.len()
        invariant
            i <= v@.len(),
            r@ == v@.subrange(0, i as int),
        decreases v@.len() - i,
    {
        r.push(v[i]);
        i = i + 1;
    }
    assert(r@ =~= v@);
    r
}

impl QueueSelections {
    /// Renders the selection as the per-family queue creation list: one entry
    /// per allocated family, in ascending family-index order, carrying that
    /// family's queue count and priorities.
    pub fn to_vk_creation_info(&self) -> (r: Vec<QueueCreateInfo>)
        requires
            self.families@.len() <= u32::MAX,
        ensures
            forall|j: int|
                0 <= j < r@.len() ==> {
                    &&& (#[trigger] r@[j]).queue_family_index < self.families@.len()
                    &&& self.families@[r@[j].queue_family_index as int] is Some
                    &&& r@[j].queue_count == self.families@[r@[
                        j
                    ].queue_family_index as int]->0.count
                    &&& r@[j].queue_priorities@ == self.families@[r@[
                        j
                    ].queue_family_index as int]->0.priorities@
                },
            forall|a: int, b: int|
                0 <= a < b < r@.len() ==> r@[a].queue_family_index < r@[b].queue_family_index,
            forall|f: int|
                0 <= f < self.families@.len() && (#[trigger] self.families@[f]) is Some
                    ==> exists|j: int|
                    0 <= j < r@.len() && (#[trigger] r@[j].queue_family_index) == f,
    {
        let mut r: Vec<QueueCreateInfo> = Vec::new();
        let mut f: usize = 0;
        while f < self.families.len()
            invariant
                f <= self.families@.len(),
                self.families@.len() <= u32::MAX,
                forall|j: int|
                    0 <= j < r@.len() ==> {
                        &&& (#[trigger] r@[j]).queue_family_index < f
                        &&& self.families@[r@[j].queue_family_index as int] is Some
                        &&& r@[j].queue_count == self.families@[r@[
                            j
                        ].queue_family_index as int]->0.count
                        &&& r@[j].queue_priorities@ == self.families@[r@[
                            j
                        ].queue_family_index as int]->0.priorities@
                    },
                forall|a: int, b: int|
                    0 <= a < b < r@.len() ==> r@[a].queue_family_index < r@[b].queue_family_index,
                forall|g: int|
                    0 <= g < f && (#[trigger] self.families@[g]) is Some ==> exists|j: int|
                        0 <= j < r@.len() && (#[trigger] r@[j].queue_family_index) == g,
            decreases self.families@.len() - f,
        {
            let ghost r_before = r@;
            match &self.families[f] {
                Some(qf) => {
                    let entry = QueueCreateInfo {
                        queue_family_index: f as u32,
                        queue_count: qf.count,
                        queue_priorities: copy_priorities(&qf.priorities),
                    };
                    r.push(entry);
                },
                None => {},
            }
            proof {
                assert forall|g: int|
                    0 <= g < f + 1 && (#[trigger] self.families@[g]) is Some implies exists|j: int|
                    0 <= j < r@.len() && (#[trigger] r@[j].queue_family_index) == g by {
                    if g == f {
                        assert(r@[r@.len() - 1].queue_family_index == g);
                    } else {
                        let j = choose|j: int|
                            0 <= j < r_before.len() && (#[trigger] r_before[j].queue_family_index)
                                == g;
                        assert(r@[j].queue_family_index == g);
                    }
                }
            }
            f = f + 1;
        }
        r
    }
}

/// Whether the operation value `o` occurs paired with family `f` somewhere
/// in the feasibility lists.
pub open spec fn spec_feasible_pair(ops: Seq<u8>, fams: Seq<u32>, o: u8, f: u32) -> bool {
    exists|k: int| 0 <= k < ops.len() && #[trigger] ops[k] == o && fams[k] == f
}

/// Whether the operation value `o` occurs in the list `ops`.
pub open spec fn spec_op_present(ops: Seq<u8>, o: u8) -> bool {
    exists|k: int| 0 <= k < ops.len() && #[trigger] ops[k] == o
}

/// Relies on eta_algorithms::algorithms::extract_unique_pairs: pairs the two
/// input slices index by index and extracts, for every value occurring in the
/// first slice, exactly one of its pairs; which pair, and in what order the
/// pairs come out, is left open (it hangs on hash iteration order), so the
/// contract states only what holds of every outcome.
#[verifier::external_body]
fn extract_unique_operation_pairs(ops: &[u8], fams: &[u32]) -> (r: (Vec<u8>, Vec<u32>))
    requires
        ops@.len() == fams@.len(),
    ensures
        r.0@.len() == r.1@.len(),
        forall|i: int, j: int| 0 <= i < j < r.0@.len() ==> r.0@[i] != r.0@[j],
        forall|i: int|
            0 <= i < r.0@.len() ==> spec_feasible_pair(ops@, fams@, #[trigger] r.0@[i], r.1@[i]),
        forall|k: int|
            0 <= k < ops@.len() ==> spec_op_present(r.0@, #[trigger] ops@[k]),
{
    eta_algorithms::algorithms::extract_unique_pairs(ops, fams)
}

/// The default queue-selection policy: deduplicates the feasible
/// (operation, family) pairs so that each operation receives exactly one
/// family assignment, then records each surviving pair in a fresh selection.
///
/// Every operation that occurs in the input ends up assigned, and every
/// assignment pairs an operation with a family that was feasible for it in
/// the input.
#[verifier::rlimit(50)]
pub fn default_queue_mapper(
    queue_operations: &[u8],
    queue_family_indices: &[u32],
    family_count: u32,
) -> (r: QueueSelections)
    requires
        queue_operations@.len() == queue_family_indices@.len(),
        forall|k: int|
            0 <= k < queue_operations@.len() ==> (#[trigger] queue_operations@[k] as usize)
                < COUNT,
        forall|k: int|
            0 <= k < queue_family_indices@.len() ==> (#[trigger] queue_family_indices@[k])
                < family_count,
    ensures
        r.wf(),
        r.families@.len() == family_count,
        forall|k: int|
            0 <= k < queue_operations@.len() ==> r.operations@[(
            #[trigger] queue_operations@[k]) as int] is Some,
        forall|op: int|
            0 <= op < COUNT && (#[trigger] r.operations@[op]) is Some ==> spec_feasible_pair(
                queue_operations@,
                queue_family_indices@,
                op as u8,
                r.operations@[op]->0.index,
            ),
{
    let (u_ops, u_fams) = extract_unique_operation_pairs(queue_operations, queue_family_indices);
    let mut selections = QueueSelections::new(family_count);
    let mut i: usize = 0;
    while i < u_ops.len()
        invariant
            u_ops@.len() == u_fams@.len(),
            i <= u_ops@.len(),
            queue_operations@.len() == queue_family_indices@.len(),
            forall|k: int|
                0 <= k < queue_operations@.len() ==> (#[trigger] queue_operations@[k] as usize)
                    < COUNT,
            forall|k: int|
                0 <= k < queue_family_indices@.len() ==> (#[trigger] queue_family_indices@[k])
                    < family_count,
            forall|a: int, b: int| 0 <= a < b < u_ops@.len() ==> u_ops@[a] != u_ops@[b],
            forall|j: int|
                0 <= j < u_ops@.len() ==> spec_feasible_pair(
                    queue_operations@,
                    queue_family_indices@,
                    #[trigger] u_ops@[j],
                    u_fams@[j],
                ),
            selections.wf(),
            selections.families@.len() == family_count,
            forall|j: int|
                0 <= j < i ==> selections.operations@[(#[trigger] u_ops@[j]) as int] is Some,
            forall|op: int|
                0 <= op < COUNT && (#[trigger] selections.operations@[op]) is Some ==> exists|
                    j: int,
                |
                    0 <= j < i && (#[trigger] u_ops@[j]) as int == op && u_fams@[j]
                        == selections.operations@[op]->0.index,
            forall|k: int|
                0 <= k < queue_operations@.len() ==> spec_op_present(
                    u_ops@,
                    #[trigger] queue_operations@[k],
                ),
        decreases u_ops@.len() - i,
    {
        let op = u_ops[i];
        let fam = u_fams[i];
        proof {
            assert(spec_feasible_pair(
                queue_operations@,
                queue_family_indices@,
                u_ops@[i as int],
                u_fams@[i as int],
            ));
            let k0 = choose|k: int|
                0 <= k < queue_operations@.len() && #[trigger] queue_operations@[k] == u_ops@[
                    i as int
                ] && queue_family_indices@[k] == u_fams@[i as int];
            assert((queue_operations@[k0] as usize) < COUNT);
            assert(queue_family_indices@[k0] < family_count);
            if selections.operations@[op as int] is Some {
                let j = choose|j: int|
                    0 <= j < i && (#[trigger] u_ops@[j]) as int == op as int && u_fams@[j]
                        == selections.operations@[op as int]->0.index;
                assert(u_ops@[j] == u_ops@[i as int]);
                assert(false);
            }
        }
        match selections.insert_operation(op, fam) {
            Ok(u) => {},
            Err(e) => {
                proof {
                    assert(false);
                }
                return vstd::pervasive::unreached();
            },
        }
        i = i + 1;
    }
    proof {
        assert forall|k: int|
            0 <= k < queue_operations@.len() implies selections.operations@[(
        #[trigger] queue_operations@[k]) as int] is Some by {
            assert(spec_op_present(u_ops@, queue_operations@[k]));
            let j = choose|j: int|
                0 <= j < u_ops@.len() && #[trigger] u_ops@[j] == queue_operations@[k];
            assert(selections.operations@[u_ops@[j] as int] is Some);
        }
        assert forall|op: int|
            0 <= op < COUNT && (#[trigger] selections.operations@[op]) is Some implies
        spec_feasible_pair(
            queue_operations@,
            queue_family_indices@,
            op as u8,
            selections.operations@[op]->0.index,
        ) by {
            let j = choose|j: int|
                0 <= j < i && (#[trigger] u_ops@[j]) as int == op && u_fams@[j]
                    == selections.operations@[op]->0.index;
            assert(spec_feasible_pair(
                queue_operations@,
                queue_family_indices@,
                u_ops@[j],
                u_fams@[j],
            ));
            assert(u_ops@[j] == op as u8);
        }
    }
    selections
}

/// Distinct operations never share a queue slot: in a well-formed selection,
/// two different assigned operations hold different (family, offset) pairs.
pub proof fn lemma_queue_selection_non_collision(q: &QueueSelections, a: int, b: int)
    requires
        q.wf(),
        0 <= a < COUNT,
        0 <= b < COUNT,
        a != b,
        q.operations@[a] is Some,
        q.operations@[b] is Some,
    ensures
        q.operations@[a]->0 != q.operations@[b]->0,
{
}

} // verus!
