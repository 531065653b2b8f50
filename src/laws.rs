//! Properties of encoding that relate several calls.
use vstd::prelude::*;
use crate::fb::{cost, fb_table_end, fb_vector, issued, nested, sealed, FbOp, MAX_SPACE};
use crate::payload::{
    encoded_region, fits, message_log, messages_log, payload_cost, payload_log, region,
    MESSAGES_SLOT, VALUE_SLOT,
};
use crate::writer::{table_log, Writer};

verus! {

/// The items of a vector call; empty for any other call.
pub open spec fn vector_items(op: FbOp) -> Seq<u32> {
    match op {
        FbOp::Vector { items } => items,
        _ => Seq::empty(),
    }
}

proof fn lemma_messages_shape(log: Seq<FbOp>, values: Seq<u32>)
    requires
        !nested(log),
    ensures
        !nested(messages_log(log, values)),
        messages_log(log, values).len() == log.len() + 3 * values.len(),
        forall|i: int| 0 <= i <= values.len() ==> #[trigger] messages_log(log, values).take(log.len() + 3 * i) == messages_log(log, values.take(i)),
        forall|i: int| 0 <= i < values.len() ==> #[trigger] messages_log(log, values)[log.len() + 3 * i + 1] == (FbOp::SlotU32 { slot: VALUE_SLOT, value: values[i], default: 0 }),
        issued(messages_log(log, values)).len() == issued(log).len() + values.len(),
        forall|j: int| 0 <= j < issued(log).len() ==> #[trigger] issued(messages_log(log, values))[j] == issued(log)[j],
        forall|i: int| 0 <= i < values.len() ==> #[trigger] issued(messages_log(log, values))[issued(log).len() + i] == fb_table_end(messages_log(log, values.take(i + 1))),
    decreases values.len(),
{
    let k = log.len() as int;
    let n = values.len() as int;
    let ml = messages_log(log, values);
    if n == 0 {
        assert(ml.take(k as int) =~= ml);
        assert(values.take(0) =~= values);
    } else {
        let prev = values.drop_last();
        lemma_messages_shape(log, prev);
        let pl = messages_log(log, prev);
        let f = FbOp::SlotU32 { slot: VALUE_SLOT, value: values.last(), default: 0 };
        Writer::lemma_table_log(pl, f);
        assert(ml == table_log(pl, f));
        assert forall|i: int| 0 <= i <= n implies #[trigger] ml.take(k + 3 * i) == messages_log(log, values.take(i)) by {
            if i == n {
                assert(ml.take(k + 3 * i) =~= ml);
                assert(values.take(i) =~= values);
            } else {
                assert(ml.take(k + 3 * i) =~= pl.take(k + 3 * i));
                assert(prev.take(i) =~= values.take(i));
            }
        }
        assert forall|i: int| 0 <= i < n implies #[trigger] ml[k + 3 * i + 1] == (FbOp::SlotU32 { slot: VALUE_SLOT, value: values[i], default: 0 }) by {
            if i < n - 1 {
                assert(ml[k + 3 * i + 1] == pl[k + 3 * i + 1]);
            }
        }
        assert forall|i: int| 0 <= i < n implies #[trigger] issued(ml)[issued(log).len() + i] == fb_table_end(messages_log(log, values.take(i + 1))) by {
            if i == n - 1 {
                assert(values.take(i + 1) =~= values);
            } else {
                assert(prev.take(i + 1) =~= values.take(i + 1));
            }
        }
    }
}

/// Encoding records a payload in order: the table of the i-th message holds
/// the i-th value, the vector that follows lists the message tables first to
/// last, and the payload table refers to that vector.
pub proof fn lemma_payload_records_values(log: Seq<FbOp>, values: Seq<u32>)
    requires
        !nested(log),
    ensures
        ({
            let p = payload_log(log, values);
            let k = log.len() as int;
            let n = values.len() as int;
            &&& p.len() == k + 3 * n + 4
            &&& forall|i: int| 0 <= i < n ==> #[trigger] p[k + 3 * i + 1] == (FbOp::SlotU32 { slot: VALUE_SLOT, value: values[i], default: 0 })
            &&& p[k + 3 * n] is Vector
            &&& vector_items(p[k + 3 * n]).len() == n
            &&& forall|i: int| 0 <= i < n ==> #[trigger] vector_items(p[k + 3 * n])[i] == fb_table_end(p.take(k + 3 * i + 3))
            &&& p[k + 3 * n + 2] == (FbOp::SlotRef { slot: MESSAGES_SLOT, pos: fb_vector(p.take(k + 3 * n + 1)) })
        }),
{
    lemma_messages_shape(log, values);
    let p = payload_log(log, values);
    let k = log.len() as int;
    let n = values.len() as int;
    let ml = messages_log(log, values);
    let lv = p.take(k + 3 * n + 1);
    assert(p.take(k + 3 * n) =~= ml);
    assert(lv =~= ml.push(p[k + 3 * n]));
    assert forall|i: int| 0 <= i < n implies #[trigger] p[k + 3 * i + 1] == (FbOp::SlotU32 { slot: VALUE_SLOT, value: values[i], default: 0 }) by {
        assert(p[k + 3 * i + 1] == ml[k + 3 * i + 1]);
    }
    let base = issued(log).len() as int;
    assert(vector_items(p[k + 3 * n]) == issued(ml).subrange(base, issued(ml).len() as int));
    assert forall|i: int| 0 <= i < n implies #[trigger] vector_items(p[k + 3 * n])[i] == fb_table_end(p.take(k + 3 * i + 3)) by {
        assert(vector_items(p[k + 3 * n])[i] == issued(ml)[base + i]);
        assert(p.take(k + 3 * i + 3) =~= ml.take(k + 3 * (i + 1)));
        assert(ml.take(k + 3 * (i + 1)) == messages_log(log, values.take(i + 1)));
    }
}

/// A payload with no messages is written as an empty vector and a payload
/// table that refers to it.
pub proof fn lemma_empty_payload(log: Seq<FbOp>)
    requires
        !nested(log),
    ensures
        payload_log(log, Seq::empty()).len() == log.len() + 4,
        payload_log(log, Seq::empty())[log.len() as int] is Vector,
        vector_items(payload_log(log, Seq::empty())[log.len() as int]) == Seq::<u32>::empty(),
{
    lemma_payload_records_values(log, Seq::empty());
    assert(vector_items(payload_log(log, Seq::empty())[log.len() as int]) =~= Seq::<u32>::empty());
}

/// Reuse leaks nothing: a writer that was reset gives any payload the same
/// region, and the same verdict on space, as a new writer.
pub proof fn lemma_reuse_matches_fresh(reused: Writer, fresh: Writer, values: Seq<u32>)
    requires
        reused.is_fresh(),
        fresh.is_fresh(),
    ensures
        region(reused.log(), values) == region(fresh.log(), values),
        region(reused.log(), values) == encoded_region(values),
        fits(reused.log(), values.len()) == fits(fresh.log(), values.len()),
{
}

/// Encoding is deterministic: two writers with the same history since their
/// last reset give a payload byte-for-byte the same region.
pub proof fn lemma_deterministic(a: Writer, b: Writer, values: Seq<u32>)
    requires
        a.wf(),
        b.wf(),
        a.log() == b.log(),
    ensures
        region(a.log(), values) == region(b.log(), values),
{
}

/// Once `finish` has sealed the buffer, it stays sealed: a second `finish`
/// before a reset is refused.
pub proof fn lemma_finish_seals(log: Seq<FbOp>, root: u32)
    ensures
        sealed(log.push(FbOp::Finish { root })),
{
}

/// After the region was consumed and the writer reset, a new cycle owes
/// success to every payload that fits an empty writer: it meets neither a
/// sealed buffer nor a stale handle.
pub proof fn lemma_new_cycle(w: Writer, values: Seq<u32>)
    requires
        w.is_fresh(),
        payload_cost(values.len()) + 16 <= MAX_SPACE,
    ensures
        !sealed(w.log()),
        fits(w.log(), values.len()),
{
    assert(cost(w.log()) == 0);
}

} // verus!
