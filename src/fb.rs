//! The flatbuffers builder behind a few trusted calls, and the record of
//! calls that describes what it holds.
use vstd::prelude::*;
use flatbuffers::{FlatBufferBuilder, UnionWIPOffset, WIPOffset};

verus! {

/// Largest number of bytes that a builder may hold. A builder grows by
/// doubling, so staying under this keeps it within the format's two
/// gigabytes and every position within a `u32`.
pub const MAX_SPACE: u64 = 1073741824;

/// Largest vtable slot offset that a field may use.
pub const MAX_SLOT: u16 = 64;

/// One call made on a builder. Positions are those the builder reported.
pub enum FbOp {
    StartTable,
    SlotU32 { slot: u16, value: u32, default: u32 },
    SlotRef { slot: u16, pos: u32 },
    EndTable { start: u32 },
    Vector { items: Seq<u32> },
    Finish { root: u32 },
}

/// A flatbuffers builder owned by the library. The builder's lifetime and
/// allocator parameters are fixed here.
#[verifier::external_body]
pub struct Builder {
    inner: FlatBufferBuilder<'static>,
}

/// The calls made on a builder since it was created or last reset. The
/// builder's bytes, and every position it reports, depend on these alone.
pub uninterp spec fn fbb_log(b: Builder) -> Seq<FbOp>;

/// The position `start_table` reported, for the calls up to and including it.
pub uninterp spec fn fb_table_start(log: Seq<FbOp>) -> u32;

/// The position `end_table` reported, for the calls up to and including it.
pub uninterp spec fn fb_table_end(log: Seq<FbOp>) -> u32;

/// The position `create_vector` reported, for the calls up to and including it.
pub uninterp spec fn fb_vector(log: Seq<FbOp>) -> u32;

/// The bytes `finished_data` shows after these calls.
pub uninterp spec fn fb_bytes(log: Seq<FbOp>) -> Seq<u8>;

/// A table is open: the last `StartTable` has no `EndTable` after it.
pub open spec fn nested(log: Seq<FbOp>) -> bool
    decreases log.len(),
{
    if log.len() == 0 {
        false
    } else {
        match log.last() {
            FbOp::StartTable => true,
            FbOp::SlotU32 { .. } => nested(log.drop_last()),
            FbOp::SlotRef { .. } => nested(log.drop_last()),
            _ => false,
        }
    }
}

/// The position reported when the open table was started.
pub open spec fn open_start(log: Seq<FbOp>) -> u32
    decreases log.len(),
{
    if log.len() == 0 {
        0
    } else {
        match log.last() {
            FbOp::StartTable => fb_table_start(log),
            FbOp::SlotU32 { .. } => open_start(log.drop_last()),
            FbOp::SlotRef { .. } => open_start(log.drop_last()),
            _ => 0,
        }
    }
}

/// The number of fields written into the open table.
pub open spec fn open_fields(log: Seq<FbOp>) -> nat
    decreases log.len(),
{
    if log.len() == 0 {
        0
    } else {
        match log.last() {
            FbOp::SlotU32 { .. } => open_fields(log.drop_last()) + 1,
            FbOp::SlotRef { .. } => open_fields(log.drop_last()) + 1,
            _ => 0,
        }
    }
}

/// Largest number of fields in one table.
pub const MAX_FIELDS: u64 = 8;

/// Some call since the last reset sealed the buffer.
pub open spec fn finished_before(log: Seq<FbOp>) -> bool {
    exists|i: int| 0 <= i < log.len() && #[trigger] log[i] is Finish
}

/// A slot offset that the format accepts: past the vtable's two header
/// entries, on an entry boundary, and within the bound above.
pub open spec fn valid_slot(slot: u16) -> bool {
    4 <= slot <= MAX_SLOT && slot % 2 == 0
}

/// A call other than `Finish` leaves the question of an earlier finish as it was.
pub proof fn lemma_push_not_finish(log: Seq<FbOp>, op: FbOp)
    requires
        !(op is Finish),
    ensures
        finished_before(log.push(op)) == finished_before(log),
{
    if finished_before(log.push(op)) {
        let i = choose|i: int| 0 <= i < log.push(op).len() && #[trigger] log.push(op)[i] is Finish;
        assert(log[i] is Finish);
    }
    if finished_before(log) {
        let i = choose|i: int| 0 <= i < log.len() && #[trigger] log[i] is Finish;
        assert(log.push(op)[i] is Finish);
    }
}

/// The last call sealed the buffer.
pub open spec fn sealed(log: Seq<FbOp>) -> bool {
    log.len() > 0 && log.last() is Finish
}

/// The positions of finished tables and vectors, in the order they were written.
pub open spec fn issued(log: Seq<FbOp>) -> Seq<u32>
    decreases log.len(),
{
    if log.len() == 0 {
        Seq::empty()
    } else {
        match log.last() {
            FbOp::EndTable { .. } => issued(log.drop_last()).push(fb_table_end(log)),
            FbOp::Vector { .. } => issued(log.drop_last()).push(fb_vector(log)),
            _ => issued(log.drop_last()),
        }
    }
}

/// An upper bound on the bytes that one call adds, padding included.
pub open spec fn op_cost(op: FbOp) -> nat {
    match op {
        FbOp::StartTable => 0,
        FbOp::SlotU32 { .. } => 8,
        FbOp::SlotRef { .. } => 8,
        FbOp::EndTable { .. } => 80,
        FbOp::Vector { items } => 4 * items.len() + 16,
        FbOp::Finish { .. } => 16,
    }
}

/// An upper bound on the bytes that the calls have written.
pub open spec fn cost(log: Seq<FbOp>) -> nat
    decreases log.len(),
{
    if log.len() == 0 {
        0
    } else {
        cost(log.drop_last()) + op_cost(log.last())
    }
}

/// Each table or vector is charged at least sixteen bytes.
pub proof fn lemma_issued_cost(log: Seq<FbOp>)
    ensures
        16 * issued(log).len() <= cost(log),
    decreases log.len(),
{
    if log.len() > 0 {
        lemma_issued_cost(log.drop_last());
    }
}

/// Relies on `FlatBufferBuilder::new`: a builder on which nothing was written.
#[verifier::external_body]
pub(crate) fn fbb_new() -> (r: Builder)
    ensures
        fbb_log(r) == Seq::<FbOp>::empty(),
{
    Builder { inner: FlatBufferBuilder::new() }
}

/// Relies on `FlatBufferBuilder::reset`: the written bytes, vtable cache,
/// alignment and finished state are cleared. Field locations are cleared by
/// `end_table`, so with no table open the builder behaves as a new one.
#[verifier::external_body]
pub(crate) fn fbb_reset(b: &mut Builder)
    requires
        !nested(fbb_log(*old(b))),
    ensures
        fbb_log(*final(b)) == Seq::<FbOp>::empty(),
{
    b.inner.reset()
}

/// Relies on `FlatBufferBuilder::start_table`, which asserts that no table is open.
#[verifier::external_body]
pub(crate) fn fbb_start_table(b: &mut Builder) -> (r: u32)
    requires
        !nested(fbb_log(*old(b))),
    ensures
        fbb_log(*final(b)) == fbb_log(*old(b)).push(FbOp::StartTable),
        r == fb_table_start(fbb_log(*final(b))),
{
    b.inner.start_table().value()
}

/// Relies on `FlatBufferBuilder::push_slot::<u32>`, which asserts that a table
/// is open and writes at most eight bytes.
#[verifier::external_body]
pub(crate) fn fbb_push_slot_u32(b: &mut Builder, slot: u16, value: u32, default: u32)
    requires
        nested(fbb_log(*old(b))),
        open_fields(fbb_log(*old(b))) < MAX_FIELDS,
        valid_slot(slot),
        cost(fbb_log(*old(b))) + 8 <= MAX_SPACE,
    ensures
        fbb_log(*final(b)) == fbb_log(*old(b)).push(
            FbOp::SlotU32 { slot, value, default },
        ),
{
    b.inner.push_slot::<u32>(slot, value, default)
}

/// Relies on `FlatBufferBuilder::push_slot_always` with an offset: it writes
/// the distance to `pos`, which must lie in the bytes already written.
#[verifier::external_body]
pub(crate) fn fbb_push_slot_ref(b: &mut Builder, slot: u16, pos: u32)
    requires
        nested(fbb_log(*old(b))),
        issued(fbb_log(*old(b))).contains(pos),
        open_fields(fbb_log(*old(b))) < MAX_FIELDS,
        valid_slot(slot),
        cost(fbb_log(*old(b))) + 8 <= MAX_SPACE,
    ensures
        fbb_log(*final(b)) == fbb_log(*old(b)).push(FbOp::SlotRef { slot, pos }),
{
    b.inner.push_slot_always::<WIPOffset<UnionWIPOffset>>(slot, WIPOffset::new(pos))
}

/// Relies on `FlatBufferBuilder::end_table`: it asserts that a table is open,
/// and writes the table's vtable offset and, unless shared, its vtable.
#[verifier::external_body]
pub(crate) fn fbb_end_table(b: &mut Builder, start: u32) -> (r: u32)
    requires
        nested(fbb_log(*old(b))),
        start == open_start(fbb_log(*old(b))),
        cost(fbb_log(*old(b))) + 80 <= MAX_SPACE,
    ensures
        fbb_log(*final(b)) == fbb_log(*old(b)).push(FbOp::EndTable { start }),
        r == fb_table_end(fbb_log(*final(b))),
{
    b.inner.end_table(WIPOffset::new(start)).value()
}

/// Relies on `FlatBufferBuilder::create_vector` over offsets: each item
/// becomes the distance to a position already written.
#[verifier::external_body]
pub(crate) fn fbb_create_vector(b: &mut Builder, items: &Vec<u32>) -> (r: u32)
    requires
        !nested(fbb_log(*old(b))),
        forall|i: int| 0 <= i < items@.len() ==> issued(fbb_log(*old(b))).contains(#[trigger] items@[i]),
        cost(fbb_log(*old(b))) + 4 * items@.len() + 16 <= MAX_SPACE,
    ensures
        fbb_log(*final(b)) == fbb_log(*old(b)).push(FbOp::Vector { items: items@ }),
        r == fb_vector(fbb_log(*final(b))),
{
    let offsets: Vec<WIPOffset<UnionWIPOffset>> = items.iter().map(|p| WIPOffset::new(*p)).collect();
    b.inner.create_vector(&offsets).value()
}

/// Relies on `FlatBufferBuilder::finish` without a file identifier, which
/// asserts that no table is open and that the buffer was not finished since
/// the last reset.
#[verifier::external_body]
pub(crate) fn fbb_finish(b: &mut Builder, root: u32)
    requires
        !nested(fbb_log(*old(b))),
        !finished_before(fbb_log(*old(b))),
        issued(fbb_log(*old(b))).contains(root),
        cost(fbb_log(*old(b))) + 16 <= MAX_SPACE,
    ensures
        fbb_log(*final(b)) == fbb_log(*old(b)).push(FbOp::Finish { root }),
{
    b.inner.finish(WIPOffset::<UnionWIPOffset>::new(root), None)
}

/// Relies on `FlatBufferBuilder::finished_data`, which asserts that the
/// buffer is finished; `finish` wrote the four-byte root offset into it.
#[verifier::external_body]
pub(crate) fn fbb_finished_data(b: &Builder) -> (r: &[u8])
    requires
        sealed(fbb_log(*b)),
    ensures
        r@ == fb_bytes(fbb_log(*b)),
        r@.len() >= 4,
{
    b.inner.finished_data()
}

} // verus!
