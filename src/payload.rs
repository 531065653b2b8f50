//! The payload schema: a `Message` table with one `u32` field, and a
//! `Payload` table holding a vector of messages. Each entity writes itself
//! into a writer that is handed down to it.
use vstd::prelude::*;
use crate::fb::{cost, fb_bytes, fb_table_end, fb_vector, issued, sealed, FbOp, MAX_SPACE};
use vstd::slice::slice_to_vec;
use crate::writer::{next_generation, table_log, Handle, Writer, WriterError};

verus! {

/// Vtable slot of `Message.value`.
pub const VALUE_SLOT: u16 = 4;

/// Vtable slot of `Payload.messages`.
pub const MESSAGES_SLOT: u16 = 4;

/// A message: one numeric field.
#[derive(Clone, Copy, Debug, PartialEq, Eq, Structural)]
pub struct Message {
    pub value: u32,
}

/// A payload: an ordered sequence of messages.
#[derive(Debug)]
pub struct Payload {
    pub messages: Vec<Message>,
}

impl View for Payload {
    type V = Seq<u32>;

    open spec fn view(&self) -> Seq<u32> {
        self.messages@.map_values(|m: Message| m.value)
    }
}

/// The calls that write one message.
pub open spec fn message_log(log: Seq<FbOp>, value: u32) -> Seq<FbOp> {
    table_log(log, FbOp::SlotU32 { slot: VALUE_SLOT, value, default: 0 })
}

/// The calls that write the messages, first to last.
pub open spec fn messages_log(log: Seq<FbOp>, values: Seq<u32>) -> Seq<FbOp>
    decreases values.len(),
{
    if values.len() == 0 {
        log
    } else {
        message_log(messages_log(log, values.drop_last()), values.last())
    }
}

/// The calls that write a payload: its messages, the vector of their
/// positions in order, then the payload table that refers to the vector.
pub open spec fn payload_log(log: Seq<FbOp>, values: Seq<u32>) -> Seq<FbOp> {
    let l = messages_log(log, values);
    let lv = l.push(
        FbOp::Vector { items: issued(l).subrange(issued(log).len() as int, issued(l).len() as int) },
    );
    table_log(lv, FbOp::SlotRef { slot: MESSAGES_SLOT, pos: fb_vector(lv) })
}

/// The calls that write a payload and seal the buffer with it as root.
pub open spec fn sealed_log(log: Seq<FbOp>, values: Seq<u32>) -> Seq<FbOp> {
    let l = payload_log(log, values);
    l.push(FbOp::Finish { root: fb_table_end(l) })
}

/// The finished region of a payload written after the calls in `log`.
pub open spec fn region(log: Seq<FbOp>, values: Seq<u32>) -> Seq<u8> {
    fb_bytes(sealed_log(log, values))
}

/// The finished region of a payload written by a new or just reset writer.
pub open spec fn encoded_region(values: Seq<u32>) -> Seq<u8> {
    region(Seq::empty(), values)
}

/// The space that a payload of `n` messages is charged.
pub open spec fn payload_cost(n: nat) -> nat {
    92 * n + 104
}

/// A payload of `n` messages, and the root that seals it, fit after the
/// calls in `log`.
pub open spec fn fits(log: Seq<FbOp>, n: nat) -> bool {
    cost(log) + payload_cost(n) + 16 <= MAX_SPACE
}

proof fn lemma_messages_step(log: Seq<FbOp>, values: Seq<u32>, i: int)
    requires
        0 <= i < values.len(),
    ensures
        messages_log(log, values.take(i + 1)) == message_log(messages_log(log, values.take(i)), values[i]),
{
    assert(values.take(i + 1).drop_last() =~= values.take(i));
}

impl Message {
    /// Writes this message as a table and returns its handle.
    pub fn to_fbs(&self, builder: &mut Writer) -> (r: Result<Handle, WriterError>)
        requires
            old(builder).wf(),
        ensures
            final(builder).wf(),
            final(builder).gen() == old(builder).gen(),
            sealed(old(builder).log()) ==> r == Err::<Handle, WriterError>(WriterError::AlreadyFinished) && *final(builder) == *old(builder),
            !sealed(old(builder).log()) ==> {
                &&& (r is Ok <==> cost(old(builder).log()) + 88 <= MAX_SPACE)
                &&& r is Ok ==> {
                    &&& final(builder).log() == message_log(old(builder).log(), self.value)
                    &&& r == Ok::<Handle, WriterError>(old(builder).next_handle())
                }
                &&& r is Err ==> r == Err::<Handle, WriterError>(WriterError::CapacityExceeded) && *final(builder) == *old(builder)
            },
    {
        builder.table_u32(VALUE_SLOT, self.value)
    }
}

impl Payload {
    /// Writes the messages, the vector of their handles in order, and then
    /// the payload table; returns the payload table's handle.
    pub fn encode_into(&self, builder: &mut Writer) -> (r: Result<Handle, WriterError>)
        requires
            old(builder).wf(),
        ensures
            final(builder).wf(),
            final(builder).gen() == old(builder).gen(),
            sealed(old(builder).log()) ==> r == Err::<Handle, WriterError>(WriterError::AlreadyFinished) && *final(builder) == *old(builder),
            !sealed(old(builder).log()) ==> {
                &&& (r is Ok <==> cost(old(builder).log()) + payload_cost(self@.len()) <= MAX_SPACE)
                &&& r is Ok ==> {
                    &&& final(builder).log() == payload_log(old(builder).log(), self@)
                    &&& cost(final(builder).log()) == cost(old(builder).log()) + payload_cost(self@.len())
                    &&& final(builder).valid_handle(r.unwrap())
                    &&& final(builder).pos_of(r.unwrap()) == fb_table_end(final(builder).log())
                    &&& r == Ok::<Handle, WriterError>(Handle {
                        generation: old(builder).gen(),
                        index: (issued(old(builder).log()).len() + self@.len() + 1) as usize,
                    })
                }
                &&& r is Err ==> r == Err::<Handle, WriterError>(WriterError::CapacityExceeded)
            },
    {
        if builder.is_finished() {
            return Err(WriterError::AlreadyFinished);
        }
        let ghost log0 = builder.log();
        let ghost base = issued(log0).len();
        let ghost g = builder.gen();
        let mut handles: Vec<Handle> = Vec::new();
        let mut i: usize = 0;
        while i < self.messages.len()
            invariant
                builder.wf(),
                builder.gen() == g,
                g == old(builder).gen(),
                log0 == old(builder).log(),
                base == issued(log0).len(),
                !sealed(log0),
                !sealed(builder.log()),
                i <= self.messages@.len(),
                builder.log() == messages_log(log0, self@.take(i as int)),
                cost(builder.log()) == cost(log0) + 88 * i,
                issued(builder.log()).len() == base + i,
                handles@.len() == i,
                forall|j: int| 0 <= j < i ==> #[trigger] handles@[j] == (Handle { generation: g, index: (base + j) as usize }),
            decreases self.messages@.len() - i,
        {
            let ghost prev = builder.log();
            proof { builder.lemma_wf(); }
            let h = match self.messages[i].to_fbs(builder) {
                Ok(h) => h,
                Err(e) => {
                    return Err(e);
                },
            };
            proof {
                lemma_messages_step(log0, self@, i as int);
                Writer::lemma_table_log(prev, FbOp::SlotU32 { slot: VALUE_SLOT, value: self@[i as int], default: 0 });
            }
            handles.push(h);
            i = i + 1;
        }
        let ghost l = builder.log();
        proof {
            builder.lemma_wf();
            assert forall|j: int| 0 <= j < handles@.len() implies builder.pos_of(#[trigger] handles@[j]) == issued(l)[base + j] by {}
            assert(self@.take(i as int) =~= self@);
            assert forall|j: int| 0 <= j < handles@.len() implies builder.valid_handle(#[trigger] handles@[j]) by {}
            assert(handles@.map_values(|h: Handle| builder.pos_of(h)) =~= issued(l).subrange(base as int, issued(l).len() as int));
        }
        let vh = match builder.vector(&handles) {
            Ok(h) => h,
            Err(e) => {
                return Err(e);
            },
        };
        let ghost lv = builder.log();
        proof {
            builder.lemma_wf();
            assert(lv.drop_last() =~= l);
            assert(issued(lv) == issued(l).push(fb_vector(lv)));
            assert(cost(lv) == cost(l) + 4 * handles@.len() + 16);
            assert(builder.pos_of(vh) == fb_vector(lv));
        }
        let r = builder.table_ref(MESSAGES_SLOT, vh);
        proof {
            if r is Ok {
                Writer::lemma_table_log(lv, FbOp::SlotRef { slot: MESSAGES_SLOT, pos: fb_vector(lv) });
            }
        }
        r
    }

    /// Encodes this payload, seals the buffer with it as root, and lends out
    /// the finished region. The region borrows the writer: it must be
    /// consumed before the writer is reset for the next payload.
    pub fn to_bytes_delegated<'a>(&self, builder: &'a mut Writer) -> (r: Result<&'a [u8], WriterError>)
        requires
            old(builder).wf(),
        ensures
            final(builder).wf(),
            final(builder).gen() == old(builder).gen(),
            sealed(old(builder).log()) ==> r == Err::<&[u8], WriterError>(WriterError::AlreadyFinished) && *final(builder) == *old(builder),
            !sealed(old(builder).log()) ==> {
                &&& (r is Ok <==> fits(old(builder).log(), self@.len()))
                &&& r is Ok ==> {
                    &&& final(builder).log() == sealed_log(old(builder).log(), self@)
                    &&& r.unwrap()@ == region(old(builder).log(), self@)
                    &&& r.unwrap()@.len() >= 4
                }
                &&& r is Err ==> r == Err::<&[u8], WriterError>(WriterError::CapacityExceeded)
            },
    {
        let ghost log0 = builder.log();
        let root = match self.encode_into(builder) {
            Ok(h) => h,
            Err(e) => {
                return Err(e);
            },
        };
        let ghost l = builder.log();
        proof {
            builder.lemma_wf();
        }
        match builder.finish(root) {
            Ok(()) => {},
            Err(e) => {
                return Err(e);
            },
        }
        let built: &'a Writer = builder;
        match built.finished_data() {
            Ok(d) => Ok(d),
            Err(e) => Err(e),
        }
    }

    /// Encodes this payload, copies the finished region out, and resets the
    /// writer for the next payload.
    pub fn to_bytes(&self, builder: &mut Writer) -> (r: Result<Vec<u8>, WriterError>)
        requires
            old(builder).wf(),
        ensures
            final(builder).wf(),
            sealed(old(builder).log()) ==> r == Err::<Vec<u8>, WriterError>(WriterError::AlreadyFinished) && *final(builder) == *old(builder),
            !sealed(old(builder).log()) ==> {
                &&& final(builder).is_fresh()
                &&& final(builder).gen() == next_generation(old(builder).gen())
                &&& (r is Ok <==> fits(old(builder).log(), self@.len()))
                &&& r is Ok ==> r.unwrap()@ == region(old(builder).log(), self@) && r.unwrap()@.len() >= 4
                &&& r is Err ==> r == Err::<Vec<u8>, WriterError>(WriterError::CapacityExceeded)
            },
    {
        if builder.is_finished() {
            return Err(WriterError::AlreadyFinished);
        }
        let r = match self.to_bytes_delegated(builder) {
            Ok(d) => Ok(slice_to_vec(d)),
            Err(e) => Err(e),
        };
        builder.reset();
        r
    }
}

} // verus!
