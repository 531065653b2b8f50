//! A reusable writer: the builder, a generation that each reset advances,
//! and handles tagged with the generation that issued them.
use vstd::prelude::*;
use crate::fb::{
    cost, fb_bytes, fb_table_end, fb_table_start, fb_vector, fbb_create_vector, fbb_end_table, fbb_finish,
    fbb_finished_data, fbb_log, fbb_new, fbb_push_slot_ref, fbb_push_slot_u32, fbb_reset,
    fbb_start_table, finished_before, issued, lemma_issued_cost, lemma_push_not_finish, nested, open_fields, open_start, sealed, valid_slot, Builder, FbOp, MAX_SPACE,
};

verus! {

/// A handle to a table or vector written by a writer: the writer's
/// generation at the time, and the object's index among those written since.
#[derive(Clone, Copy, Debug, PartialEq, Eq, Structural)]
pub struct Handle {
    pub generation: u64,
    pub index: usize,
}

/// Why a writer refused a call.
#[derive(Clone, Copy, Debug, PartialEq, Eq, Structural)]
pub enum WriterError {
    /// The buffer was already finished and has not been reset since.
    AlreadyFinished,
    /// The buffer has not been finished.
    NotFinished,
    /// A handle from another generation, or one that was never issued.
    StaleHandle,
    /// The buffer would grow past its limit.
    CapacityExceeded,
}

/// The calls that write a table with one field.
pub open spec fn table_log(log: Seq<FbOp>, field: FbOp) -> Seq<FbOp> {
    let l1 = log.push(FbOp::StartTable);
    l1.push(field).push(FbOp::EndTable { start: fb_table_start(l1) })
}

/// The generation that follows `g`.
pub open spec fn next_generation(g: u64) -> u64 {
    if g == u64::MAX { 0 } else { (g + 1) as u64 }
}

/// A writer that is created once and reused: each cycle writes objects,
/// finishes once, lends out the region, and is reset.
pub struct Writer {
    builder: Builder,
    generation: u64,
    finished: bool,
    space: u64,
    issued: Vec<u32>,
}

impl Writer {
    /// The calls made on the builder since the writer was created or reset.
    pub closed spec fn log(&self) -> Seq<FbOp> {
        fbb_log(self.builder)
    }

    pub closed spec fn gen(&self) -> u64 {
        self.generation
    }

    pub closed spec fn wf(&self) -> bool {
        &&& !nested(self.log())
        &&& self.finished == sealed(self.log())
        &&& finished_before(self.log()) ==> sealed(self.log())
        &&& self.space == cost(self.log())
        &&& self.space <= MAX_SPACE
        &&& self.issued@ == issued(self.log())
    }

    /// Nothing written since creation or the last reset.
    pub open spec fn is_fresh(&self) -> bool {
        self.wf() && self.log() == Seq::<FbOp>::empty()
    }

    /// The handle was issued by this writer in its current generation.
    pub open spec fn valid_handle(&self, h: Handle) -> bool {
        h.generation == self.gen() && h.index < issued(self.log()).len()
    }

    /// The position that a valid handle stands for.
    pub open spec fn pos_of(&self, h: Handle) -> u32 {
        issued(self.log())[h.index as int]
    }

    /// The handle the next table or vector will get.
    pub open spec fn next_handle(&self) -> Handle {
        Handle { generation: self.gen(), index: issued(self.log()).len() as usize }
    }

    pub fn new() -> (w: Writer)
        ensures
            w.is_fresh(),
            w.gen() == 0,
    {
        Writer { builder: fbb_new(), generation: 0, finished: false, space: 0, issued: Vec::new() }
    }

    /// Drops what was written and advances the generation, so that every
    /// handle issued before becomes stale.
    pub fn reset(&mut self)
        requires
            old(self).wf(),
        ensures
            final(self).is_fresh(),
            final(self).gen() == next_generation(old(self).gen()),
    {
        fbb_reset(&mut self.builder);
        self.generation = self.generation.wrapping_add(1);
        self.finished = false;
        self.space = 0;
        self.issued = Vec::new();
    }

    pub fn generation(&self) -> (r: u64)
        ensures
            r == self.gen(),
    {
        self.generation
    }

    pub fn is_finished(&self) -> (r: bool)
        requires
            self.wf(),
        ensures
            r == sealed(self.log()),
    {
        self.finished
    }

    /// What a well-formed writer's record shows.
    pub proof fn lemma_wf(&self)
        requires
            self.wf(),
        ensures
            !nested(self.log()),
            finished_before(self.log()) ==> sealed(self.log()),
            cost(self.log()) <= MAX_SPACE,
            issued(self.log()).len() <= usize::MAX,
    {
        lemma_issued_cost(self.log());
    }

    pub proof fn lemma_table_log(log: Seq<FbOp>, field: FbOp)
        requires
            !nested(log),
            field is SlotU32 || field is SlotRef,
        ensures
            nested(log.push(FbOp::StartTable).push(field)),
            open_fields(log.push(FbOp::StartTable)) == 0,
            open_start(log.push(FbOp::StartTable).push(field)) == fb_table_start(log.push(FbOp::StartTable)),
            !nested(table_log(log, field)),
            !sealed(table_log(log, field)),
            finished_before(table_log(log, field)) == finished_before(log),
            cost(table_log(log, field)) == cost(log) + 88,
            issued(table_log(log, field)) == issued(log).push(fb_table_end(table_log(log, field))),
    {
        let l1 = log.push(FbOp::StartTable);
        let l2 = l1.push(field);
        let l3 = l2.push(FbOp::EndTable { start: fb_table_start(l1) });
        assert(l1.drop_last() =~= log);
        assert(l2.drop_last() =~= l1);
        assert(l3.drop_last() =~= l2);
        assert(cost(l1) == cost(log));
        assert(cost(l2) == cost(l1) + 8);
        assert(cost(l3) == cost(l2) + 80);
        assert(issued(l1) == issued(log));
        assert(issued(l2) == issued(l1));
        assert(open_start(l1) == fb_table_start(l1));
        lemma_push_not_finish(log, FbOp::StartTable);
        lemma_push_not_finish(l1, field);
        lemma_push_not_finish(l2, FbOp::EndTable { start: fb_table_start(l1) });
        assert(nested(l1));
    }

    /// Writes a table whose one field holds `value` at `slot`.
    pub fn table_u32(&mut self, slot: u16, value: u32) -> (r: Result<Handle, WriterError>)
        requires
            old(self).wf(),
            valid_slot(slot),
        ensures
            final(self).wf(),
            final(self).gen() == old(self).gen(),
            sealed(old(self).log()) ==> r == Err::<Handle, WriterError>(WriterError::AlreadyFinished) && *final(self) == *old(self),
            !sealed(old(self).log()) ==> {
                &&& (r is Ok <==> cost(old(self).log()) + 88 <= MAX_SPACE)
                &&& r is Ok ==> {
                    &&& final(self).log() == table_log(old(self).log(), FbOp::SlotU32 { slot, value, default: 0 })
                    &&& r == Ok::<Handle, WriterError>(old(self).next_handle())
                }
                &&& r is Err ==> r == Err::<Handle, WriterError>(WriterError::CapacityExceeded) && *final(self) == *old(self)
            },
    {
        if self.finished {
            return Err(WriterError::AlreadyFinished);
        }
        if self.space > MAX_SPACE - 88 {
            return Err(WriterError::CapacityExceeded);
        }
        proof { Self::lemma_table_log(self.log(), FbOp::SlotU32 { slot, value, default: 0 }); }
        let ghost log0 = self.log();
        let start = fbb_start_table(&mut self.builder);
        proof { assert(self.log().drop_last() =~= log0); }
        fbb_push_slot_u32(&mut self.builder, slot, value, 0);
        proof { assert(self.log().drop_last() =~= log0.push(FbOp::StartTable)); }
        let end = fbb_end_table(&mut self.builder, start);
        let h = Handle { generation: self.generation, index: self.issued.len() };
        self.issued.push(end);
        self.space = self.space + 88;
        assert(self.log() == table_log(log0, FbOp::SlotU32 { slot, value, default: 0 }));
        Ok(h)
    }

    /// Resolves a handle to its position, or tells that it is stale.
    fn resolve(&self, h: Handle) -> (r: Option<u32>)
        requires
            self.wf(),
        ensures
            r is Some <==> self.valid_handle(h),
            r is Some ==> r == Some(self.pos_of(h)),
    {
        if h.generation != self.generation || h.index >= self.issued.len() {
            None
        } else {
            Some(self.issued[h.index])
        }
    }

    /// Writes a table whose one field refers to the object behind `target`.
    pub fn table_ref(&mut self, slot: u16, target: Handle) -> (r: Result<Handle, WriterError>)
        requires
            old(self).wf(),
            valid_slot(slot),
        ensures
            final(self).wf(),
            final(self).gen() == old(self).gen(),
            sealed(old(self).log()) ==> r == Err::<Handle, WriterError>(WriterError::AlreadyFinished) && *final(self) == *old(self),
            !sealed(old(self).log()) && !old(self).valid_handle(target) ==> r == Err::<Handle, WriterError>(WriterError::StaleHandle) && *final(self) == *old(self),
            !sealed(old(self).log()) && old(self).valid_handle(target) ==> {
                &&& (r is Ok <==> cost(old(self).log()) + 88 <= MAX_SPACE)
                &&& r is Ok ==> {
                    &&& final(self).log() == table_log(old(self).log(), FbOp::SlotRef { slot, pos: old(self).pos_of(target) })
                    &&& r == Ok::<Handle, WriterError>(old(self).next_handle())
                }
                &&& r is Err ==> r == Err::<Handle, WriterError>(WriterError::CapacityExceeded) && *final(self) == *old(self)
            },
    {
        if self.finished {
            return Err(WriterError::AlreadyFinished);
        }
        let pos = match self.resolve(target) {
            Some(p) => p,
            None => { return Err(WriterError::StaleHandle); },
        };
        if self.space > MAX_SPACE - 88 {
            return Err(WriterError::CapacityExceeded);
        }
        proof { Self::lemma_table_log(self.log(), FbOp::SlotRef { slot, pos }); }
        let ghost log0 = self.log();
        let start = fbb_start_table(&mut self.builder);
        proof {
            assert(self.log().drop_last() =~= log0);
            assert(issued(self.log()) == issued(log0));
        }
        fbb_push_slot_ref(&mut self.builder, slot, pos);
        proof { assert(self.log().drop_last() =~= log0.push(FbOp::StartTable)); }
        let end = fbb_end_table(&mut self.builder, start);
        let h = Handle { generation: self.generation, index: self.issued.len() };
        self.issued.push(end);
        self.space = self.space + 88;
        assert(self.log() == table_log(log0, FbOp::SlotRef { slot, pos }));
        Ok(h)
    }

    /// Writes a vector of references to the objects behind `items`, in order.
    pub fn vector(&mut self, items: &Vec<Handle>) -> (r: Result<Handle, WriterError>)
        requires
            old(self).wf(),
        ensures
            final(self).wf(),
            final(self).gen() == old(self).gen(),
            sealed(old(self).log()) ==> r == Err::<Handle, WriterError>(WriterError::AlreadyFinished) && *final(self) == *old(self),
            !sealed(old(self).log()) && (exists|i: int| 0 <= i < items@.len() && !old(self).valid_handle(#[trigger] items@[i]))
                ==> r == Err::<Handle, WriterError>(WriterError::StaleHandle) && *final(self) == *old(self),
            !sealed(old(self).log()) && (forall|i: int| 0 <= i < items@.len() ==> old(self).valid_handle(#[trigger] items@[i])) ==> {
                &&& (r is Ok <==> cost(old(self).log()) + 4 * items@.len() + 16 <= MAX_SPACE)
                &&& r is Ok ==> {
                    &&& final(self).log() == old(self).log().push(FbOp::Vector { items: items@.map_values(|h: Handle| old(self).pos_of(h)) })
                    &&& r == Ok::<Handle, WriterError>(old(self).next_handle())
                }
                &&& r is Err ==> r == Err::<Handle, WriterError>(WriterError::CapacityExceeded) && *final(self) == *old(self)
            },
    {
        if self.finished {
            return Err(WriterError::AlreadyFinished);
        }
        let mut positions: Vec<u32> = Vec::new();
        let mut i: usize = 0;
        while i < items.len()
            invariant
                self.wf(),
                !self.finished,
                i <= items@.len(),
                positions@.len() == i,
                forall|j: int| 0 <= j < i ==> self.valid_handle(#[trigger] items@[j]),
                forall|j: int| 0 <= j < i ==> positions@[j] == self.pos_of(#[trigger] items@[j]),
            decreases items@.len() - i,
        {
            match self.resolve(items[i]) {
                Some(p) => { positions.push(p); },
                None => { return Err(WriterError::StaleHandle); },
            }
            i = i + 1;
        }
        if items.len() as u64 > MAX_SPACE || self.space + 4 * (items.len() as u64) + 16 > MAX_SPACE {
            return Err(WriterError::CapacityExceeded);
        }
        let ghost log0 = self.log();
        proof {
            assert(positions@ =~= items@.map_values(|h: Handle| self.pos_of(h)));
            assert forall|j: int| 0 <= j < positions@.len() implies issued(log0).contains(#[trigger] positions@[j]) by {
                assert(issued(log0)[items@[j].index as int] == positions@[j]);
            }
        }
        let end = fbb_create_vector(&mut self.builder, &positions);
        proof {
            let l = self.log();
            assert(l.drop_last() =~= log0);
            assert(cost(l) == cost(log0) + 4 * positions@.len() + 16);
            lemma_push_not_finish(log0, FbOp::Vector { items: positions@ });
        }
        let h = Handle { generation: self.generation, index: self.issued.len() };
        self.issued.push(end);
        self.space = self.space + 4 * (items.len() as u64) + 16;
        Ok(h)
    }

    /// Seals the buffer with `root` as its entry point. A second call before
    /// `reset` fails and leaves the writer as it was.
    pub fn finish(&mut self, root: Handle) -> (r: Result<(), WriterError>)
        requires
            old(self).wf(),
        ensures
            final(self).wf(),
            final(self).gen() == old(self).gen(),
            sealed(old(self).log()) ==> r == Err::<(), WriterError>(WriterError::AlreadyFinished) && *final(self) == *old(self),
            !sealed(old(self).log()) && !old(self).valid_handle(root) ==> r == Err::<(), WriterError>(WriterError::StaleHandle) && *final(self) == *old(self),
            !sealed(old(self).log()) && old(self).valid_handle(root) ==> {
                &&& (r is Ok <==> cost(old(self).log()) + 16 <= MAX_SPACE)
                &&& r is Ok ==> final(self).log() == old(self).log().push(FbOp::Finish { root: old(self).pos_of(root) })
                &&& r is Err ==> r == Err::<(), WriterError>(WriterError::CapacityExceeded) && *final(self) == *old(self)
            },
    {
        if self.finished {
            return Err(WriterError::AlreadyFinished);
        }
        let pos = match self.resolve(root) {
            Some(p) => p,
            None => { return Err(WriterError::StaleHandle); },
        };
        if self.space > MAX_SPACE - 16 {
            return Err(WriterError::CapacityExceeded);
        }
        let ghost log0 = self.log();
        fbb_finish(&mut self.builder, pos);
        proof {
            let l = self.log();
            assert(l.drop_last() =~= log0);
            assert(cost(l) == cost(log0) + 16);
            assert(issued(l) == issued(log0));
        }
        self.finished = true;
        self.space = self.space + 16;
        Ok(())
    }

    /// The finished region: valid until the writer is next changed.
    pub fn finished_data(&self) -> (r: Result<&[u8], WriterError>)
        requires
            self.wf(),
        ensures
            sealed(self.log()) <==> r is Ok,
            r is Ok ==> r.unwrap()@ == fb_bytes(self.log()),
            r is Ok ==> r.unwrap()@.len() >= 4,
            r is Err ==> r == Err::<&[u8], WriterError>(WriterError::NotFinished),
    {
        if !self.finished {
            return Err(WriterError::NotFinished);
        }
        Ok(fbb_finished_data(&self.builder))
    }
}

} // verus!
