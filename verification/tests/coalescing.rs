use std::time::{Duration, Instant};

use librefang::clock::UtcTime;
use librefang::coalescing::{
    content_to_text, is_urgent, CoalesceKey, CoalesceOnBusy, CoalesceRuntimeConfig,
    CoalescingDispatcher, PendingBatch, PushAction,
};
use librefang::json::Json;
use librefang::types::{
    AgentId, ChannelContent, ChannelMessage, ChannelType, ChannelUser, CoalesceOnBusyMode,
    Metadata,
};

type Dispatcher = CoalescingDispatcher<String, &'static str>;
type Content = ChannelContent<&'static str>;
type Message = ChannelMessage<&'static str>;

fn settings(enabled: bool, seconds: u64) -> CoalesceRuntimeConfig {
    CoalesceRuntimeConfig {
        enabled,
        window: Duration::from_secs(seconds),
        on_busy: CoalesceOnBusy::Queue,
    }
}

/// 2026-05-22 09:00:00 UTC, and some seconds more.
fn at(seconds: i64) -> UtcTime {
    UtcTime::new(1_779_440_400 + seconds, 0).unwrap()
}

fn make_content(content: Content, uid: &str) -> Message {
    ChannelMessage {
        channel: ChannelType::Telegram,
        platform_message_id: "m".to_string(),
        sender: ChannelUser {
            platform_id: uid.to_string(),
            display_name: uid.to_string(),
            librefang_user: None,
        },
        content,
        target_agent: None,
        timestamp: at(0),
        is_group: false,
        thread_id: None,
        metadata: Metadata::new(),
    }
}

fn make_msg(text: &str, uid: &str) -> Message {
    make_content(ChannelContent::Text(text.to_string()), uid)
}

fn make_key(uid: &str) -> CoalesceKey {
    CoalesceKey {
        channel: "test".to_string(),
        chat_or_user: uid.to_string(),
        sender_id: uid.to_string(),
    }
}

fn push(
    d: &mut Dispatcher,
    key: CoalesceKey,
    msg: Message,
    blocks: Option<Vec<String>>,
    agent: AgentId,
) -> bool {
    match d.push(key, msg, blocks, agent, Instant::now()) {
        PushAction::Dispatch => false,
        PushAction::StartTimer { .. } => true,
    }
}

fn texts(batch: &PendingBatch<String, &'static str>) -> Vec<String> {
    batch.messages.iter().map(|m| content_to_text(&m.content)).collect()
}

#[test]
fn test_disabled_coalescing_passthrough() {
    let mut d = Dispatcher::new(settings(false, 15));
    let key = make_key("user1");
    let msg = make_msg("hello", "user1");
    let result = push(&mut d, key, msg, None, AgentId(1));
    assert!(!result, "disabled coalescing must passthrough");
}

#[test]
fn test_single_message_flush() {
    let mut d = Dispatcher::new(settings(true, 5));
    let agent = AgentId(1);
    let key = make_key("user1");
    let msg = make_msg("hello", "user1");
    let buffered = push(&mut d, key.clone(), msg, None, agent);
    assert!(buffered, "enabled coalescing must buffer");

    let batch = d.drain(&key.to_string()).expect("must have batch");
    assert_eq!(batch.messages.len(), 1);
    assert_eq!(batch.agent_id, agent);
}

#[test]
fn test_multiple_messages_coalesced() {
    let mut d = Dispatcher::new(settings(true, 15));
    let agent = AgentId(1);
    let key = make_key("user1");

    assert!(push(&mut d, key.clone(), make_msg("first", "user1"), None, agent));
    assert!(push(&mut d, key.clone(), make_msg("second", "user1"), None, agent));
    assert!(push(&mut d, key.clone(), make_msg("third", "user1"), None, agent));

    let batch = d.drain(&key.to_string()).expect("must have batch");
    assert_eq!(batch.messages.len(), 3);
}

#[test]
fn test_merge_single_message() {
    let mut d = Dispatcher::new(settings(true, 5));
    let agent = AgentId(1);
    let key = make_key("user1");
    let msg = make_msg("hello world", "user1");
    push(&mut d, key.clone(), msg, None, agent);
    let batch = d.drain(&key.to_string()).unwrap();
    let (text, blocks, _) = Dispatcher::merge_batch(batch);
    assert_eq!(text, "hello world");
    assert!(blocks.is_none());
}

#[test]
fn test_merge_multiple_messages() {
    let mut d = Dispatcher::new(settings(true, 5));
    let agent = AgentId(1);
    let key = make_key("user1");
    push(&mut d, key.clone(), make_msg("first", "user1"), None, agent);
    push(&mut d, key.clone(), make_msg("second", "user1"), None, agent);
    push(&mut d, key.clone(), make_msg("third", "user1"), None, agent);
    let batch = d.drain(&key.to_string()).unwrap();
    let (text, blocks, _) = Dispatcher::merge_batch(batch);
    // Each message is timestamp-prefixed when multiple are coalesced.
    assert!(text.contains("first"), "contains first");
    assert!(text.contains("second"), "contains second");
    assert!(text.contains("third"), "contains third");
    assert!(blocks.is_none());
}

#[test]
fn test_sliding_window_resets_timer() {
    let mut d = Dispatcher::new(settings(true, 15));
    let agent = AgentId(1);
    let key = make_key("user1");

    push(&mut d, key.clone(), make_msg("first", "user1"), None, agent);
    assert_eq!(d.buffered_len(&key.to_string()), 1);

    // Second message extends buffer.
    push(&mut d, key.clone(), make_msg("second", "user1"), None, agent);
    assert_eq!(d.buffered_len(&key.to_string()), 2);
}

#[test]
fn test_urgent_bypasses_coalescing() {
    let mut d = Dispatcher::new(settings(true, 15));
    let agent = AgentId(1);
    let key = make_key("user1");

    let mut msg = make_msg("urgent!", "user1");
    msg.metadata.insert("urgent".to_string(), Json::Bool(true));

    let result = push(&mut d, key, msg, None, agent);
    assert!(!result, "urgent messages must bypass coalescing");
}

#[test]
fn test_busy_tracking() {
    let mut d = Dispatcher::new(settings(true, 5));
    let agent = AgentId(1);
    assert!(!d.is_busy(&agent));
    d.mark_busy(agent);
    assert!(d.is_busy(&agent));
    d.mark_idle(&agent);
    assert!(!d.is_busy(&agent));
}

#[test]
fn test_different_keys_independent() {
    let mut d = Dispatcher::new(settings(true, 15));
    let agent = AgentId(1);

    let key1 = make_key("user1");
    let key2 = make_key("user2");

    push(&mut d, key1.clone(), make_msg("a", "user1"), None, agent);
    push(&mut d, key2.clone(), make_msg("b", "user2"), None, agent);
    push(&mut d, key1.clone(), make_msg("c", "user1"), None, agent);

    let batch1 = d.drain(&key1.to_string()).unwrap();
    assert_eq!(batch1.messages.len(), 2);

    let batch2 = d.drain(&key2.to_string()).unwrap();
    assert_eq!(batch2.messages.len(), 1);
}

#[test]
fn settings_are_handed_out() {
    let d = Dispatcher::new(settings(true, 15));
    assert!(d.is_enabled());
    assert_eq!(d.window(), Duration::from_secs(15));
    assert_eq!(d.on_busy_mode(), CoalesceOnBusy::Queue);
    let copy = settings(false, 2).clone();
    assert!(!copy.enabled);
    assert_eq!(copy.window, Duration::from_secs(2));
}

#[test]
fn both_modes_queue() {
    assert_eq!(CoalesceOnBusy::from(CoalesceOnBusyMode::Queue), CoalesceOnBusy::Queue);
    assert_eq!(CoalesceOnBusy::from(CoalesceOnBusyMode::CancelAndMerge), CoalesceOnBusy::Queue);
}

#[test]
fn key_text_has_three_parts() {
    let key = CoalesceKey {
        channel: "whatsapp".to_string(),
        chat_or_user: "39@g.us".to_string(),
        sender_id: "39".to_string(),
    };
    assert_eq!(key.to_string(), "whatsapp:39@g.us:39");
    assert_eq!(key.clone(), key);
}

#[test]
fn every_key_has_a_text_of_its_own() {
    let parts = ["", "a", "b", "ab", ":", "a:", ":b", "a:b", "\\", "\\:", "a\\", ":\\", "\\\\"];
    let mut seen = std::collections::HashSet::new();
    for channel in parts {
        for chat in parts {
            for sender in parts {
                let key = CoalesceKey {
                    channel: channel.to_string(),
                    chat_or_user: chat.to_string(),
                    sender_id: sender.to_string(),
                };
                assert!(seen.insert(key.to_string()), "{key:?}");
            }
        }
    }
}

#[test]
fn colons_inside_a_part_do_not_mix_windows() {
    let key = |channel: &str, chat: &str| CoalesceKey {
        channel: channel.to_string(),
        chat_or_user: chat.to_string(),
        sender_id: "d".to_string(),
    };
    assert_eq!(key("a:b", "c").to_string(), "a\\:b:c:d");
    assert_eq!(key("a", "b:c").to_string(), "a:b\\:c:d");
    let mut d = Dispatcher::new(settings(true, 15));
    push(&mut d, key("a:b", "c"), make_msg("x", "u"), None, AgentId(1));
    push(&mut d, key("a", "b:c"), make_msg("y", "u"), None, AgentId(2));
    let batch = d.drain("a\\:b:c:d").unwrap();
    assert_eq!(texts(&batch), ["x"]);
}

#[test]
fn what_no_rule_reads_travels_along() {
    let mut d = Dispatcher::new(settings(true, 15));
    let key = make_key("u");
    let sticker = make_content(ChannelContent::Sticker { rest: "cat" }, "u");
    push(&mut d, key.clone(), sticker, None, AgentId(1));
    let (text, _, last) = Dispatcher::merge_batch(d.drain(&key.to_string()).unwrap());
    assert_eq!(text, "[sticker]");
    assert!(matches!(last.content, ChannelContent::Sticker { rest: "cat" }));
}

#[test]
fn timers_are_started_and_restarted() {
    let mut d = Dispatcher::new(settings(true, 15));
    let key = make_key("u");
    for round in 0..3 {
        let action = d.push(key.clone(), make_msg("x", "u"), None, AgentId(1), Instant::now());
        match action {
            PushAction::StartTimer { key: k, restart, window } => {
                assert_eq!(k, "test:u:u");
                assert_eq!(restart, round > 0);
                assert_eq!(window, Duration::from_secs(15));
            }
            PushAction::Dispatch => panic!("must be buffered"),
        }
    }
    d.drain("test:u:u").unwrap();
    match d.push(key, make_msg("x", "u"), None, AgentId(1), Instant::now()) {
        PushAction::StartTimer { restart, .. } => assert!(!restart),
        PushAction::Dispatch => panic!("must be buffered"),
    }
}

#[test]
fn a_batch_is_what_was_pushed() {
    let mut d = Dispatcher::new(settings(true, 15));
    let key = make_key("u");
    let blocks = |names: &[&str]| Some(names.iter().map(|n| n.to_string()).collect());
    let early = Instant::now();
    let late = early + Duration::from_secs(1);
    d.push(key.clone(), make_msg("one", "u"), None, AgentId(1), early);
    d.push(key.clone(), make_msg("two", "u"), blocks(&["x", "y"]), AgentId(2), early);
    d.push(key.clone(), make_msg("three", "u"), None, AgentId(3), early);
    d.push(key.clone(), make_msg("four", "u"), blocks(&["z"]), AgentId(4), late);
    let batch = d.drain(&key.to_string()).unwrap();
    assert_eq!(texts(&batch), ["one", "two", "three", "four"]);
    assert_eq!(batch.agent_id, AgentId(1));
    assert_eq!(batch.first_arrived, late);
    let (_, merged, last) = Dispatcher::merge_batch(batch);
    assert_eq!(merged, blocks(&["x", "y", "z"]));
    assert_eq!(content_to_text(&last.content), "four");
}

#[test]
fn a_batch_is_drained_once() {
    let mut d = Dispatcher::new(settings(true, 15));
    let key = make_key("u");
    assert!(d.drain(&key.to_string()).is_none());
    push(&mut d, key.clone(), make_msg("x", "u"), None, AgentId(1));
    assert!(d.drain("test:u").is_none());
    assert!(d.drain(&key.to_string()).is_some());
    assert!(d.drain(&key.to_string()).is_none());
    assert_eq!(d.buffered_len(&key.to_string()), 0);
}

#[test]
fn messages_that_bypass_are_not_buffered() {
    let mut d = Dispatcher::new(settings(true, 15));
    let key = make_key("u");
    push(&mut d, key.clone(), make_msg("x", "u"), None, AgentId(1));
    let mut urgent = make_msg("now", "u");
    urgent.metadata.insert("urgent".to_string(), Json::Bool(true));
    assert!(!push(&mut d, key.clone(), urgent, None, AgentId(1)));
    let batch = d.drain(&key.to_string()).unwrap();
    assert_eq!(texts(&batch), ["x"]);

    let mut off = Dispatcher::new(settings(false, 15));
    push(&mut off, key.clone(), make_msg("x", "u"), None, AgentId(1));
    assert!(off.buffered_keys().is_empty());
}

#[test]
fn only_a_true_flag_is_urgent() {
    let mut msg = make_msg("x", "u");
    assert!(!is_urgent(&msg));
    msg.metadata.insert("urgent".to_string(), Json::Bool(false));
    assert!(!is_urgent(&msg));
    msg.metadata.insert("urgent".to_string(), Json::Text("true".to_string()));
    assert!(!is_urgent(&msg));
    msg.metadata.insert("other".to_string(), Json::Bool(true));
    assert!(!is_urgent(&msg));
    msg.metadata.insert("urgent".to_string(), Json::Bool(true));
    assert!(is_urgent(&msg));
}

#[test]
fn buffered_keys_are_all_there_once() {
    let mut d = Dispatcher::new(settings(true, 15));
    for uid in ["a", "b", "a", "c", "b"] {
        push(&mut d, make_key(uid), make_msg("x", uid), None, AgentId(1));
    }
    let mut keys = d.buffered_keys();
    keys.sort();
    assert_eq!(keys, ["test:a:a", "test:b:b", "test:c:c"]);
    d.drain("test:b:b");
    let mut keys = d.buffered_keys();
    keys.sort();
    assert_eq!(keys, ["test:a:a", "test:c:c"]);
}

#[test]
fn busy_agents_do_not_disturb_each_other() {
    let mut d = Dispatcher::new(settings(true, 5));
    d.mark_busy(AgentId(1));
    d.mark_busy(AgentId(2));
    d.mark_busy(AgentId(1));
    d.mark_idle(&AgentId(2));
    assert!(d.is_busy(&AgentId(1)));
    assert!(!d.is_busy(&AgentId(2)));
    d.mark_idle(&AgentId(1));
    assert!(!d.is_busy(&AgentId(1)));
}

#[test]
fn merged_text_has_the_times() {
    let mut first = make_msg("first", "u");
    first.timestamp = at(-1);
    let mut second = make_msg("second\nline", "u");
    second.timestamp = at(3_725);
    let batch: PendingBatch<String, &'static str> = PendingBatch {
        messages: vec![first, second],
        blocks: None,
        agent_id: AgentId(1),
        first_arrived: Instant::now(),
    };
    let (text, _, last) = Dispatcher::merge_batch(batch);
    assert_eq!(text, "[08:59:59] first\n[10:02:05] second\nline");
    assert_eq!(last.timestamp, at(3_725));
}

#[test]
fn a_leap_second_is_second_sixty() {
    let mut first = make_msg("a", "u");
    first.timestamp = UtcTime::new(1_483_228_799, 1_200_000_000).unwrap();
    let mut second = make_msg("b", "u");
    second.timestamp = UtcTime::new(-1, 0).unwrap();
    let batch: PendingBatch<String, &'static str> = PendingBatch {
        messages: vec![first, second],
        blocks: None,
        agent_id: AgentId(1),
        first_arrived: Instant::now(),
    };
    let (text, _, _) = Dispatcher::merge_batch(batch);
    assert_eq!(text, "[23:59:60] a\n[23:59:59] b");
}

#[test]
fn every_content_has_a_text() {
    let caption = || Some("cap".to_string());
    let s = |t: &str| t.to_string();
    let cases = vec![
        (ChannelContent::Text(s("t")), "t"),
        (ChannelContent::Command { name: s("help"), args: vec![] }, "/help"),
        (ChannelContent::Command { name: s("go"), args: vec![s("a"), s("b c")] }, "/go a b c"),
        (ChannelContent::Image { url: s("u"), caption: caption(), rest: "r" }, "cap"),
        (ChannelContent::Image { url: s("u"), caption: None, rest: "r" }, ""),
        (ChannelContent::Voice { url: s("u"), caption: caption(), rest: "r" }, "cap"),
        (ChannelContent::Video { caption: caption(), rest: "r" }, "cap"),
        (ChannelContent::Audio { url: s("u"), caption: None, rest: "r" }, ""),
        (ChannelContent::File { url: s("u"), filename: s("f") }, "[file]"),
        (ChannelContent::FileData { data: vec![1], mime_type: s("m"), filename: s("f") }, "[file data]"),
        (ChannelContent::Sticker { rest: "r" }, "[sticker]"),
        (ChannelContent::Location { lat: 0, lon: 0 }, "[location]"),
        (ChannelContent::Animation { caption: caption(), rest: "r" }, "cap"),
        (ChannelContent::Interactive { text: s("menu"), rest: "r" }, "menu"),
        (ChannelContent::ButtonCallback { action: s("ok"), rest: "r" }, "[button: ok]"),
        (ChannelContent::Poll { question: s("why?"), rest: "r" }, "[poll: why?]"),
        (ChannelContent::PollAnswer { rest: "r" }, "[poll answer]"),
        (ChannelContent::MediaGroup { rest: "r" }, "[media group]"),
        (ChannelContent::DeleteMessage { rest: "r" }, ""),
        (ChannelContent::EditInteractive { text: s("edited"), rest: "r" }, "edited"),
    ];
    for (content, text) in &cases {
        assert_eq!(content_to_text(content), *text);
    }
}

#[test]
fn draining_every_key_leaves_nothing() {
    let mut d = Dispatcher::new(settings(true, 15));
    for uid in ["a", "b", "c"] {
        push(&mut d, make_key(uid), make_msg(uid, uid), None, AgentId(1));
    }
    for key in d.buffered_keys() {
        assert!(d.drain(&key).is_some());
    }
    assert!(d.buffered_keys().is_empty());
}
