//! The laws of the store, stated over the same spec functions that the
//! executable functions' contracts use.
use vstd::prelude::*;
use crate::json::{byte_len, json_of_records, lemma_parse_snapshot_round_trip, parse_snapshot};
use crate::message::message::MessageView;
use crate::message::message_buffer::{
    ids_consecutive, lemma_push_evict_wf, next_id_spec, push_evict, store_add, wrap_inc,
    MessageBuffer, StoreModel, CACHE_CAPACITY, CIRCULAR_BUFFER_SIZE,
};

verus! {

/// The empty store every run begins with.
pub open spec fn empty_store() -> StoreModel {
    StoreModel { records: Seq::<MessageView>::empty(), cache: Seq::<char>::empty() }
}

/// The store after a sequence of `add_message` calls, each given as the pair
/// of the author and the body, applied in order to the empty store.
pub open spec fn replay(inputs: Seq<(Seq<char>, Seq<char>)>) -> StoreModel
    decreases inputs.len(),
{
    if inputs.len() == 0 {
        empty_store()
    } else {
        store_add(replay(inputs.drop_last()), inputs.last().0, inputs.last().1)
    }
}

/// Capacity invariant: after any sequence of `add_message` calls, the log
/// holds exactly as many records as there were calls, up to the capacity.
pub proof fn lemma_capacity_invariant(inputs: Seq<(Seq<char>, Seq<char>)>)
    ensures
        replay(inputs).records.len() == (if inputs.len() <= CIRCULAR_BUFFER_SIZE {
            inputs.len() as int
        } else {
            CIRCULAR_BUFFER_SIZE as int
        }),
    decreases inputs.len(),
{
    if inputs.len() > 0 {
        lemma_capacity_invariant(inputs.drop_last());
    }
}

/// Every store reachable by `add_message` calls from the empty store is well
/// formed: within capacity, with consecutive identifiers.
pub proof fn lemma_replay_wf(inputs: Seq<(Seq<char>, Seq<char>)>)
    ensures
        replay(inputs).records.len() <= CIRCULAR_BUFFER_SIZE as int,
        ids_consecutive(replay(inputs).records),
    decreases inputs.len(),
{
    if inputs.len() > 0 {
        lemma_replay_wf(inputs.drop_last());
        let prev = replay(inputs.drop_last()).records;
        lemma_push_evict_wf(
            prev,
            MessageView {
                id: next_id_spec(prev),
                author: inputs.last().0,
                message: inputs.last().1,
            },
        );
    }
}

/// In a well-formed window whose identifiers have not wrapped past
/// `u32::MAX`, each record's identifier is the oldest one's plus its
/// distance from the oldest.
proof fn lemma_id_linear(rs: Seq<MessageView>, i: int)
    requires
        ids_consecutive(rs),
        rs.len() > 0,
        rs[0].id + rs.len() - 1 <= u32::MAX,
        0 <= i < rs.len(),
    ensures
        rs[i].id == rs[0].id + i,
    decreases i,
{
    if i > 0 {
        lemma_id_linear(rs, i - 1);
        assert(rs[(i - 1) + 1].id == wrap_inc(rs[i - 1].id));
    }
}

/// Identifier monotonicity: of two records in the log, the one appended
/// later carries the strictly greater identifier. The window in which the
/// identifier wrapped past `u32::MAX` is left out.
pub proof fn lemma_id_monotonicity(rs: Seq<MessageView>)
    requires
        ids_consecutive(rs),
        rs.len() > 0 ==> rs[0].id + rs.len() - 1 <= u32::MAX,
    ensures
        forall|a: int, b: int| 0 <= a < b < rs.len() ==> rs[a].id < rs[b].id,
{
    assert forall|a: int, b: int| 0 <= a < b < rs.len() implies rs[a].id < rs[b].id by {
        lemma_id_linear(rs, a);
        lemma_id_linear(rs, b);
    }
}

/// Eviction order: appending to a full log removes exactly the oldest
/// record, the one whose identifier is the smallest, and keeps the others in
/// order.
pub proof fn lemma_eviction_order(rs: Seq<MessageView>, m: MessageView)
    requires
        ids_consecutive(rs),
        rs.len() == CIRCULAR_BUFFER_SIZE as int,
        rs[0].id + rs.len() - 1 <= u32::MAX,
    ensures
        push_evict(rs, m) == rs.subrange(1, rs.len() as int).push(m),
        forall|j: int| 1 <= j < rs.len() ==> rs[0].id < #[trigger] rs[j].id,
        forall|j: int| 0 <= j < rs.len() - 1 ==> #[trigger] push_evict(rs, m)[j] == rs[j + 1],
{
    lemma_id_monotonicity(rs);
}

/// Cache consistency: when the serialization of the grown log fits the
/// cache, a write leaves the snapshot holding exactly the serialization of
/// the log's records, oldest first — and that snapshot deserializes back to
/// exactly those records.
pub proof fn lemma_cache_consistency(s: StoreModel, author: Seq<char>, body: Seq<char>)
    requires
        byte_len(json_of_records(store_add(s, author, body).records)) <= CACHE_CAPACITY as int,
    ensures
        store_add(s, author, body).cache == json_of_records(store_add(s, author, body).records),
        parse_snapshot(store_add(s, author, body).cache) == Some(
            store_add(s, author, body).records,
        ),
{
    lemma_parse_snapshot_round_trip(store_add(s, author, body).records);
}

/// Idempotent reads: what `cached` returns is a function of the store alone,
/// so reads without a write in between return the same text.
pub proof fn lemma_idempotent_reads(store: MessageBuffer, r1: Seq<char>, r2: Seq<char>)
    requires
        r1 == store@.cache,
        r2 == store@.cache,
    ensures
        r1 == r2,
{
}

/// Two writers: two `add_message` calls, in whichever order the lock grants
/// them, grow the log by exactly two records, up to the capacity, and the
/// two fresh identifiers are distinct and consecutive in commit order. The
/// wrap of the identifier past `u32::MAX` is left out.
pub proof fn lemma_two_writers(
    s: StoreModel,
    a1: Seq<char>,
    b1: Seq<char>,
    a2: Seq<char>,
    b2: Seq<char>,
)
    requires
        s.records.len() <= CIRCULAR_BUFFER_SIZE as int,
        next_id_spec(s.records) < u32::MAX,
    ensures
        ({
            let i1 = next_id_spec(s.records);
            let first = store_add(store_add(s, a1, b1), a2, b2).records;
            let second = store_add(store_add(s, a2, b2), a1, b1).records;
            &&& first.len() == (if s.records.len() + 2 <= CIRCULAR_BUFFER_SIZE as int {
                s.records.len() + 2
            } else {
                CIRCULAR_BUFFER_SIZE as nat
            })
            &&& second.len() == first.len()
            &&& first[first.len() - 2] == (MessageView { id: i1, author: a1, message: b1 })
            &&& first.last() == (MessageView {
                id: (i1 + 1) as u32,
                author: a2,
                message: b2,
            })
            &&& second[second.len() - 2] == (MessageView { id: i1, author: a2, message: b2 })
            &&& second.last() == (MessageView { id: (i1 + 1) as u32, author: a1, message: b1 })
        }),
{
}

} // verus!
