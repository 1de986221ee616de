//! The bounded message store: a fixed-capacity ring of records with strictly
//! increasing identifiers, and a cached JSON snapshot of its content that is
//! rebuilt once per mutation and served verbatim to readers.
use vstd::prelude::*;
use crate::json::{byte_len, json_escape, json_of_records, json_u32};
use crate::message::message::{Message, MessageView};

verus! {

/// Capacity of the ring of messages: once this many are stored, appending one
/// more evicts the oldest.
pub const CIRCULAR_BUFFER_SIZE: usize = 15;

/// Capacity, in bytes, of the cached snapshot: the worst case allowed for one
/// serialized record times the capacity of the ring.
pub const CACHE_CAPACITY: usize = 512 * CIRCULAR_BUFFER_SIZE;

#[verifier::external_type_specification]
#[verifier::external_body]
#[verifier::reject_recursive_types(T)]
pub struct ExFixedCircularBuffer<T, const N: usize>(circular_buffer::FixedCircularBuffer<T, N>);

/// The records held by the ring, oldest first.
pub uninterp spec fn buffer_contents(
    b: circular_buffer::FixedCircularBuffer<Message, CIRCULAR_BUFFER_SIZE>,
) -> Seq<MessageView>;

/// Relies on `FixedCircularBuffer::new`: an empty buffer.
#[verifier::external_body]
fn circ_new() -> (r: circular_buffer::FixedCircularBuffer<Message, CIRCULAR_BUFFER_SIZE>)
    ensures
        buffer_contents(r) == Seq::<MessageView>::empty(),
{
    circular_buffer::FixedCircularBuffer::new()
}

/// Relies on `CircularBuffer::push_back`: the element goes to the back; when
/// the buffer is full, the front element is overwritten.
#[verifier::external_body]
fn circ_push_back(
    b: &mut circular_buffer::FixedCircularBuffer<Message, CIRCULAR_BUFFER_SIZE>,
    m: Message,
)
    ensures
        buffer_contents(*final(b)) == (if buffer_contents(*old(b)).len()
            < CIRCULAR_BUFFER_SIZE as int {
            buffer_contents(*old(b)).push(m@)
        } else {
            buffer_contents(*old(b)).subrange(1, buffer_contents(*old(b)).len() as int).push(m@)
        }),
{
    b.push_back(m);
}

/// Relies on `CircularBuffer::back`: the back element, which is the most
/// recently pushed one, or `None` when the buffer is empty.
#[verifier::external_body]
fn circ_back<'a>(
    b: &'a circular_buffer::FixedCircularBuffer<Message, CIRCULAR_BUFFER_SIZE>,
) -> (r: Option<&'a Message>)
    ensures
        match r {
            Some(m) => buffer_contents(*b).len() > 0 && m@ == buffer_contents(*b).last(),
            None => buffer_contents(*b).len() == 0,
        },
{
    b.back()
}

/// Relies on `CircularBuffer::to_vec`: the elements front to back, which is
/// oldest to newest.
#[verifier::external_body]
fn circ_to_vec(b: &circular_buffer::FixedCircularBuffer<Message, CIRCULAR_BUFFER_SIZE>) -> (r: Vec<
    Message,
>)
    ensures
        r@.map_values(|m: Message| m@) == buffer_contents(*b),
{
    b.to_vec()
}

/// The identifier after `id`: one more, wrapping past `u32::MAX` to `0`.
pub open spec fn wrap_inc(id: u32) -> u32 {
    if id == u32::MAX {
        0
    } else {
        (id + 1) as u32
    }
}

/// The identifier the next appended record receives: `0` into an empty log,
/// otherwise the newest identifier plus one, wrapping past `u32::MAX` to `0`.
pub open spec fn next_id_spec(rs: Seq<MessageView>) -> u32 {
    if rs.len() == 0 {
        0
    } else {
        wrap_inc(rs.last().id)
    }
}

/// Appending to the bounded log: a plain push while below capacity, and a push
/// that drops the oldest record once the capacity is reached.
pub open spec fn push_evict(rs: Seq<MessageView>, m: MessageView) -> Seq<MessageView> {
    if rs.len() < CIRCULAR_BUFFER_SIZE as int {
        rs.push(m)
    } else {
        rs.subrange(1, rs.len() as int).push(m)
    }
}

/// The mathematical content of a `MessageBuffer`: the records of the log,
/// oldest first, and the text of the cached snapshot.
pub ghost struct StoreModel {
    pub records: Seq<MessageView>,
    pub cache: Seq<char>,
}

/// What one `add_message` call does to the store: the record with the next
/// identifier is appended (evicting the oldest at capacity), and the cache
/// becomes the serialization of the new content if that fits in
/// `CACHE_CAPACITY` bytes, else it keeps its previous text.
pub open spec fn store_add(s: StoreModel, author: Seq<char>, body: Seq<char>) -> StoreModel {
    let rs = push_evict(
        s.records,
        MessageView { id: next_id_spec(s.records), author: author, message: body },
    );
    StoreModel {
        records: rs,
        cache: if byte_len(json_of_records(rs)) <= CACHE_CAPACITY as int {
            json_of_records(rs)
        } else {
            s.cache
        },
    }
}

/// Every pair of neighbouring records carries consecutive identifiers, the
/// newer one greater by one (wrapping past `u32::MAX`).
pub open spec fn ids_consecutive(rs: Seq<MessageView>) -> bool {
    forall|i: int| 0 <= i < rs.len() - 1 ==> #[trigger] rs[i + 1].id == wrap_inc(rs[i].id)
}

/// The bounded log of messages together with its cached serialization.
pub struct MessageBuffer {
    _buffer: circular_buffer::FixedCircularBuffer<Message, CIRCULAR_BUFFER_SIZE>,
    _cache: String,
}

impl View for MessageBuffer {
    type V = StoreModel;

    closed spec fn view(&self) -> StoreModel {
        StoreModel { records: buffer_contents(self._buffer), cache: self._cache@ }
    }
}

impl MessageBuffer {
    /// The log never holds more records than the capacity, and their
    /// identifiers run consecutively from oldest to newest.
    pub open spec fn wf(self) -> bool {
        self@.records.len() <= CIRCULAR_BUFFER_SIZE as int && ids_consecutive(self@.records)
    }

    /// An empty store: no records, and an empty snapshot.
    pub fn new() -> (r: Self)
        ensures
            r@.records == Seq::<MessageView>::empty(),
            r@.cache == Seq::<char>::empty(),
            r.wf(),
    {
        MessageBuffer { _buffer: circ_new(), _cache: String::new() }
    }

    /// Appends one record and rebuilds the cached snapshot from the resulting
    /// content; when the serialization would not fit, the previous snapshot is
    /// kept unchanged and only the cache goes stale.
    pub fn add_message(&mut self, author: String, message: String)
        ensures
            final(self)@ == store_add(old(self)@, author@, message@),
            old(self).wf() ==> final(self).wf(),
    {
        let id: u32 = match circ_back(&self._buffer) {
            Some(m) => {
                if m.id == u32::MAX {
                    0
                } else {
                    m.id + 1
                }
            },
            None => 0,
        };
        let ghost old_records = buffer_contents(self._buffer);
        let ghost mv = MessageView { id: id, author: author@, message: message@ };
        circ_push_back(&mut self._buffer, Message { id, author, message });
        let records = circ_to_vec(&self._buffer);
        let json = serialize_messages(&records);
        if json.as_str().as_bytes().len() <= CACHE_CAPACITY {
            self._cache = json;
        }
        proof {
            if old(self).wf() {
                lemma_push_evict_wf(old_records, mv);
            }
        }
    }

    /// A copy of the cached snapshot; reading changes nothing.
    pub fn cached(&self) -> (r: String)
        ensures
            r@ == self@.cache,
    {
        self._cache.clone()
    }
}

impl Default for MessageBuffer {
    /// The same empty store `new` builds.
    fn default() -> (r: Self)
        ensures
            r@.records == Seq::<MessageView>::empty(),
            r@.cache == Seq::<char>::empty(),
            r.wf(),
    {
        MessageBuffer::new()
    }
}

/// Appending the record with the next identifier keeps the log well formed.
pub proof fn lemma_push_evict_wf(rs: Seq<MessageView>, m: MessageView)
    requires
        rs.len() <= CIRCULAR_BUFFER_SIZE as int,
        ids_consecutive(rs),
        m.id == next_id_spec(rs),
    ensures
        push_evict(rs, m).len() <= CIRCULAR_BUFFER_SIZE as int,
        ids_consecutive(push_evict(rs, m)),
{
    let out = push_evict(rs, m);
    assert forall|i: int| 0 <= i < out.len() - 1 implies #[trigger] out[i + 1].id == wrap_inc(
        out[i].id,
    ) by {
        if rs.len() >= CIRCULAR_BUFFER_SIZE as int && i < out.len() - 2 {
            assert(out[i] == rs[i + 1] && out[i + 1] == rs[i + 2]);
        }
    }
}

/// Serializes the records, oldest to newest, as the JSON array that
/// `json_of_records` states.
pub fn serialize_messages(messages: &Vec<Message>) -> (r: String)
    ensures
        r@ == json_of_records(messages@.map_values(|m: Message| m@)),
{
    let ghost views = messages@.map_values(|m: Message| m@);
    let mut out: String = "[".to_owned();
    let mut i: usize = 0;
    while i < messages.len()
        invariant
            0 <= i <= messages.len(),
            views == messages@.map_values(|m: Message| m@),
            out@ == "["@ + crate::json::json_records_body(views.subrange(0, i as int)),
        decreases messages.len() - i,
    {
        if i > 0 {
            out.append(",");
        }
        let m = &messages[i];
        out.append("{\"id\":");
        let id_text = json_u32(m.id);
        out.append(id_text.as_str());
        out.append(",\"author\":");
        let author_text = json_escape(m.author.as_str());
        out.append(author_text.as_str());
        out.append(",\"message\":");
        let message_text = json_escape(m.message.as_str());
        out.append(message_text.as_str());
        out.append("}");
        proof {
            let prev = views.subrange(0, i as int);
            let cur = views.subrange(0, i + 1);
            assert(cur.drop_last() =~= prev);
            assert(cur.last() == views[i as int]);
            assert(views[i as int] == messages@[i as int]@);
            assert(out@ =~= "["@ + crate::json::json_records_body(cur));
        }
        i += 1;
    }
    out.append("]");
    proof {
        assert(views.subrange(0, views.len() as int) =~= views);
        assert(out@ =~= json_of_records(views));
    }
    out
}

} // verus!
