use coop_gateway::group_history::{GroupHistoryBuffer, GroupHistoryEntry};
use coop_gateway::session::{SessionKey, SessionKind};

fn session_key(group: &str) -> SessionKey {
    SessionKey {
        agent_id: "coop".to_owned(),
        kind: SessionKind::Group(group.to_owned()),
    }
}

fn entry(_sender: &str, body: &str, _ts: u64) -> GroupHistoryEntry {
    GroupHistoryEntry {
        body: body.to_owned(),
    }
}

#[test]
fn record_and_drain_returns_formatted() {
    let mut buf = GroupHistoryBuffer::new();
    let key = session_key("signal:group:dead");
    buf.record(&key, entry("Alice", "[from Alice at 100]\nhello", 100), 50);
    buf.record(&key, entry("Bob", "[from Bob at 101]\nhi there", 101), 50);

    let ctx = buf.drain_context(&key).unwrap();
    assert!(ctx.contains("[Chat messages since your last reply"));
    assert!(ctx.contains("[from Alice at 100]\nhello"));
    assert!(ctx.contains("[from Bob at 101]\nhi there"));
    assert!(ctx.contains("[Current message — respond to this]"));
}

#[test]
fn peek_returns_without_consuming() {
    let mut buf = GroupHistoryBuffer::new();
    let key = session_key("signal:group:dead");
    buf.record(&key, entry("Alice", "hello", 100), 50);

    let ctx1 = buf.peek_context(&key).unwrap();
    let ctx2 = buf.peek_context(&key).unwrap();
    assert_eq!(ctx1, ctx2);
}

#[test]
fn drain_clears_buffer() {
    let mut buf = GroupHistoryBuffer::new();
    let key = session_key("signal:group:dead");
    buf.record(&key, entry("Alice", "hello", 100), 50);

    assert!(buf.drain_context(&key).is_some());
    assert!(buf.drain_context(&key).is_none());
}

#[test]
fn clear_discards_buffered_history() {
    let mut buf = GroupHistoryBuffer::new();
    let key = session_key("signal:group:dead");
    buf.record(&key, entry("Alice", "hello", 100), 50);

    buf.clear(&key);

    assert!(buf.peek_context(&key).is_none());
}

#[test]
fn history_respects_limit() {
    let mut buf = GroupHistoryBuffer::new();
    let key = session_key("signal:group:dead");
    for i in 0..5 {
        buf.record(&key, entry("Alice", &format!("msg {i}"), i), 3);
    }
    let ctx = buf.peek_context(&key).unwrap();
    assert!(!ctx.contains("msg 0"));
    assert!(!ctx.contains("msg 1"));
    assert!(ctx.contains("msg 2"));
    assert!(ctx.contains("msg 3"));
    assert!(ctx.contains("msg 4"));
}

#[test]
fn empty_buffer_returns_none() {
    let buf = GroupHistoryBuffer::new();
    assert!(
        buf.peek_context(&session_key("signal:group:dead"))
            .is_none()
    );
}

#[test]
fn multiple_sessions_independent() {
    let mut buf = GroupHistoryBuffer::new();
    let key1 = session_key("signal:group:aaaa");
    let key2 = session_key("signal:group:bbbb");
    buf.record(&key1, entry("Alice", "session1", 1), 50);
    buf.record(&key2, entry("Bob", "session2", 2), 50);

    let c1 = buf.peek_context(&key1).unwrap();
    let c2 = buf.peek_context(&key2).unwrap();
    assert!(c1.contains("session1"));
    assert!(!c1.contains("session2"));
    assert!(c2.contains("session2"));
    assert!(!c2.contains("session1"));
}

#[test]
fn newest_messages_stay_in_order() {
    let key = session_key("signal:group:dead");
    let other = session_key("signal:group:beef");
    for limit in 0..4 {
        let mut buf = GroupHistoryBuffer::new();
        buf.record(&other, entry("Bob", "other", 0), 1);
        let kept = buf.peek_context(&other);
        for i in 0..3 {
            buf.record(&key, entry("Alice", &format!("msg {i}"), i), limit);
        }
        let context = buf.peek_context(&key).unwrap_or_default();
        let said: Vec<_> = context.lines().filter(|l| l.contains("msg ")).collect();
        assert_eq!(said.len(), limit.min(3));
        for (line, i) in said.iter().zip(3 - said.len()..) {
            assert!(line.contains(&format!("msg {i}")));
        }
        assert_eq!(buf.peek_context(&key).is_none(), limit == 0);
        assert_eq!(buf.peek_context(&other), kept);
    }
}
