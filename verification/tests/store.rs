use message_board::message::message_buffer::MessageBuffer;

fn snapshot_entries(snapshot: &str) -> Vec<(u64, String, String)> {
    let value: serde_json::Value = serde_json::from_str(snapshot).expect("snapshot must be JSON");
    let array = value.as_array().expect("snapshot must be an array");
    array
        .iter()
        .map(|entry| {
            (
                entry["id"].as_u64().expect("id"),
                entry["author"].as_str().expect("author").to_string(),
                entry["message"].as_str().expect("message").to_string(),
            )
        })
        .collect()
}

#[test]
fn new_store_has_empty_snapshot() {
    let store = MessageBuffer::new();
    assert_eq!(store.cached(), "");
}

#[test]
fn one_message_serializes_exactly() {
    let mut store = MessageBuffer::new();
    store.add_message("alice".to_string(), "hi".to_string());
    assert_eq!(
        store.cached(),
        "[{\"id\":0,\"author\":\"alice\",\"message\":\"hi\"}]"
    );
}

#[test]
fn special_characters_are_escaped() {
    let mut store = MessageBuffer::new();
    store.add_message("a".to_string(), "q\"b\\c\nd\u{1}e".to_string());
    assert_eq!(
        store.cached(),
        "[{\"id\":0,\"author\":\"a\",\"message\":\"q\\\"b\\\\c\\nd\\u0001e\"}]"
    );
}

#[test]
fn capacity_is_never_exceeded() {
    let mut store = MessageBuffer::new();
    for n in 0..40u32 {
        store.add_message("a".to_string(), format!("m{}", n));
        let entries = snapshot_entries(&store.cached());
        assert_eq!(entries.len(), std::cmp::min(n as usize + 1, 15));
    }
}

#[test]
fn ids_increase_and_are_never_renumbered() {
    let mut store = MessageBuffer::new();
    for n in 0..20u32 {
        store.add_message("a".to_string(), format!("m{}", n));
    }
    let entries = snapshot_entries(&store.cached());
    assert_eq!(entries.len(), 15);
    for pair in entries.windows(2) {
        assert!(pair[1].0 > pair[0].0);
        assert_eq!(pair[1].0, pair[0].0 + 1);
    }
    assert_eq!(entries[0].0, 5);
    assert_eq!(entries[14].0, 19);
}

#[test]
fn sixteen_messages_evict_the_first() {
    let mut store = MessageBuffer::new();
    for n in 0..16u32 {
        store.add_message("a".to_string(), format!("m{}", n));
    }
    let entries = snapshot_entries(&store.cached());
    assert_eq!(entries.len(), 15);
    for (k, entry) in entries.iter().enumerate() {
        assert_eq!(entry.0, k as u64 + 1);
        assert_eq!(entry.2, format!("m{}", k + 1));
    }
}

#[test]
fn snapshot_deserializes_to_the_log_content() {
    let mut store = MessageBuffer::new();
    let written = vec![
        ("alice", "first"),
        ("bob", "se\"cond\\"),
        ("carol", "third\nline"),
    ];
    for (author, message) in &written {
        store.add_message(author.to_string(), message.to_string());
    }
    let entries = snapshot_entries(&store.cached());
    assert_eq!(entries.len(), written.len());
    for (k, entry) in entries.iter().enumerate() {
        assert_eq!(entry.0, k as u64);
        assert_eq!(entry.1, written[k].0);
        assert_eq!(entry.2, written[k].1);
    }
}

#[test]
fn repeated_reads_are_identical() {
    let mut store = MessageBuffer::new();
    store.add_message("alice".to_string(), "hi".to_string());
    let first = store.cached();
    let second = store.cached();
    let third = store.cached();
    assert_eq!(first, second);
    assert_eq!(second, third);
}

#[test]
fn oversized_serialization_keeps_previous_snapshot() {
    let mut store = MessageBuffer::new();
    store.add_message("alice".to_string(), "hi".to_string());
    let before = store.cached();
    // 15 * 512 bytes is the cache capacity; one huge body cannot fit.
    store.add_message("bob".to_string(), "y".repeat(10_000));
    assert_eq!(store.cached(), before);
}

#[test]
fn multi_digit_ids_appear_in_the_snapshot() {
    let mut store = MessageBuffer::new();
    for n in 0..11u32 {
        store.add_message("a".to_string(), format!("m{}", n));
    }
    let snapshot = store.cached();
    assert!(snapshot.contains("\"id\":10"));
    let entries = snapshot_entries(&snapshot);
    assert_eq!(entries[10].0, 10);
}

#[test]
fn two_writers_in_either_order_commit_both() {
    for order in 0..2 {
        let mut store = MessageBuffer::new();
        store.add_message("seed".to_string(), "s".to_string());
        let writes = if order == 0 {
            [("w1", "first"), ("w2", "second")]
        } else {
            [("w2", "second"), ("w1", "first")]
        };
        for (author, message) in &writes {
            store.add_message(author.to_string(), message.to_string());
        }
        let entries = snapshot_entries(&store.cached());
        assert_eq!(entries.len(), 3);
        assert_eq!(entries[1].0 + 1, entries[2].0);
        assert_eq!(entries[1].1, writes[0].0);
        assert_eq!(entries[2].1, writes[1].0);
    }
}
