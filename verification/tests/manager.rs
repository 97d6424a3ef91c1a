use codex_core::CodexErr;
use codex_core::ContentItem;
use codex_core::ConversationId;
use codex_core::ConversationManager;
use codex_core::Event;
use codex_core::EventMsg;
use codex_core::INITIAL_SUBMIT_ID;
use codex_core::InitialHistory;
use codex_core::ResponseItem;
use codex_core::Role;
use codex_core::RolloutItem;
use codex_core::SessionConfiguredEvent;
use codex_core::SessionSource;
use codex_core::fork_history_from_rollout;
use codex_core::initial_history_from_rollout;

fn user_msg(text: &str) -> ResponseItem {
    ResponseItem::Message {
        role: Role::User,
        content: vec![ContentItem::OutputText { text: text.to_string() }],
    }
}

fn assistant_msg(text: &str) -> ResponseItem {
    ResponseItem::Message {
        role: Role::Assistant,
        content: vec![ContentItem::OutputText { text: text.to_string() }],
    }
}

fn configured_event(id: ConversationId, rollout_path: &str) -> Event {
    Event {
        id: INITIAL_SUBMIT_ID,
        msg: EventMsg::SessionConfigured(SessionConfiguredEvent {
            session_id: id,
            model: "gpt".to_string(),
            rollout_path: rollout_path.to_string(),
        }),
    }
}

#[test]
fn finalize_spawn_accepts_session_configured_first_event() {
    let mut manager = ConversationManager::new(SessionSource::Exec);
    let id = ConversationId(1);
    let new_conversation = manager
        .finalize_spawn(id, configured_event(id, "/tmp/rollout.jsonl"))
        .expect("valid first event must register the conversation");
    assert_eq!(new_conversation.conversation_id, id);
    assert_eq!(new_conversation.session_configured.session_id, id);
    assert_eq!(new_conversation.session_configured.rollout_path, "/tmp/rollout.jsonl");
    assert_eq!(new_conversation.conversation.rollout_path, "/tmp/rollout.jsonl");
}

#[test]
fn finalize_spawn_rejects_wrong_submission_id() {
    let mut manager = ConversationManager::new(SessionSource::Exec);
    let id = ConversationId(2);
    let mut event = configured_event(id, "/tmp/rollout.jsonl");
    event.id = INITIAL_SUBMIT_ID + 1;
    let err = manager.finalize_spawn(id, event).unwrap_err();
    assert_eq!(err, CodexErr::SessionConfiguredNotFirstEvent);
    // A failed spawn leaves no trace in the registry.
    assert_eq!(
        manager.get_conversation(id).unwrap_err(),
        CodexErr::ConversationNotFound(id)
    );
}

#[test]
fn finalize_spawn_rejects_wrong_first_event_variant() {
    let mut manager = ConversationManager::new(SessionSource::Exec);
    let id = ConversationId(3);
    let event = Event { id: INITIAL_SUBMIT_ID, msg: EventMsg::TaskStarted };
    let err = manager.finalize_spawn(id, event).unwrap_err();
    assert_eq!(err, CodexErr::SessionConfiguredNotFirstEvent);
    assert_eq!(
        manager.get_conversation(id).unwrap_err(),
        CodexErr::ConversationNotFound(id)
    );
}

#[test]
fn registered_conversation_is_visible_until_removed() {
    let mut manager = ConversationManager::new(SessionSource::Cli);
    let id = ConversationId(10);
    manager
        .finalize_spawn(id, configured_event(id, "/tmp/a.jsonl"))
        .expect("valid first event");

    let looked_up = manager.get_conversation(id).expect("registered conversation");
    assert_eq!(looked_up.conversation_id, id);
    assert_eq!(looked_up.rollout_path, "/tmp/a.jsonl");

    let removed = manager.remove_conversation(&id).expect("still registered");
    assert_eq!(removed.rollout_path, "/tmp/a.jsonl");

    assert_eq!(
        manager.get_conversation(id).unwrap_err(),
        CodexErr::ConversationNotFound(id)
    );
    assert!(manager.remove_conversation(&id).is_none());
}

#[test]
fn removal_leaves_other_conversations_untouched() {
    let mut manager = ConversationManager::new(SessionSource::Mcp);
    let first = ConversationId(21);
    let second = ConversationId(22);
    manager.finalize_spawn(first, configured_event(first, "/tmp/first.jsonl")).unwrap();
    manager.finalize_spawn(second, configured_event(second, "/tmp/second.jsonl")).unwrap();

    manager.remove_conversation(&first).expect("first is registered");

    let kept = manager.get_conversation(second).expect("second stays registered");
    assert_eq!(kept.rollout_path, "/tmp/second.jsonl");
}

#[test]
fn session_source_tag_is_fixed() {
    let manager = ConversationManager::new(SessionSource::Exec);
    assert_eq!(manager.session_source(), SessionSource::Exec);
}

fn forkable_rollout() -> Vec<RolloutItem> {
    vec![
        RolloutItem::SessionMeta,
        RolloutItem::ResponseItem(user_msg("u1")),
        RolloutItem::ResponseItem(assistant_msg("a1")),
        RolloutItem::ResponseItem(user_msg("u2")),
        RolloutItem::ResponseItem(assistant_msg("a2")),
    ]
}

#[test]
fn fork_history_wraps_non_empty_prefix_as_forked() {
    let history = fork_history_from_rollout(forkable_rollout(), 1);
    let expected = vec![
        RolloutItem::SessionMeta,
        RolloutItem::ResponseItem(user_msg("u1")),
        RolloutItem::ResponseItem(assistant_msg("a1")),
    ];
    assert_eq!(history, InitialHistory::Forked(expected));
}

#[test]
fn fork_history_represents_empty_prefix_as_new() {
    // Cutting before a boundary that does not exist truncates everything.
    assert_eq!(fork_history_from_rollout(forkable_rollout(), 2), InitialHistory::New);
    // Cutting before the first user message of a rollout that starts with
    // one leaves nothing either.
    let rollout = vec![RolloutItem::ResponseItem(user_msg("u1"))];
    assert_eq!(fork_history_from_rollout(rollout, 0), InitialHistory::New);
}

#[test]
fn resume_history_is_forked_exactly_when_non_empty() {
    assert_eq!(initial_history_from_rollout(Vec::new()), InitialHistory::New);
    let rollout = forkable_rollout();
    assert_eq!(
        initial_history_from_rollout(rollout.clone()),
        InitialHistory::Forked(rollout)
    );
}

#[test]
fn forks_of_one_source_are_independent() {
    // Two forks of the same source rollout with different cut points: each
    // gets its own correctly truncated history and its own id, with no
    // cross-contamination of state.
    let history_a = fork_history_from_rollout(forkable_rollout(), 0);
    let history_b = fork_history_from_rollout(forkable_rollout(), 1);
    assert_eq!(
        history_a,
        InitialHistory::Forked(vec![RolloutItem::SessionMeta])
    );
    assert_eq!(
        history_b,
        InitialHistory::Forked(vec![
            RolloutItem::SessionMeta,
            RolloutItem::ResponseItem(user_msg("u1")),
            RolloutItem::ResponseItem(assistant_msg("a1")),
        ])
    );

    let mut manager = ConversationManager::new(SessionSource::Exec);
    let id_a = ConversationId(31);
    let id_b = ConversationId(32);
    manager.finalize_spawn(id_a, configured_event(id_a, "/tmp/fork_a.jsonl")).unwrap();
    manager.finalize_spawn(id_b, configured_event(id_b, "/tmp/fork_b.jsonl")).unwrap();
    assert_eq!(manager.get_conversation(id_a).unwrap().rollout_path, "/tmp/fork_a.jsonl");
    assert_eq!(manager.get_conversation(id_b).unwrap().rollout_path, "/tmp/fork_b.jsonl");
}
