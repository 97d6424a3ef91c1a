use codex_core::ContentItem;
use codex_core::ResponseItem;
use codex_core::Role;
use codex_core::RolloutItem;
use codex_core::TurnItem;
use codex_core::drop_last_n_user_turns_from_response_items;
use codex_core::parse_turn_item;
use codex_core::truncate_rollout_before_nth_user_message_from_start;
use codex_core::user_message_positions_in_response_items;
use codex_core::user_message_positions_in_rollout;

fn user_msg(text: &str) -> ResponseItem {
    ResponseItem::Message {
        role: Role::User,
        content: vec![ContentItem::OutputText { text: text.to_string() }],
    }
}

fn assistant_msg(text: &str) -> ResponseItem {
    ResponseItem::Message {
        role: Role::Assistant,
        content: vec![ContentItem::OutputText { text: text.to_string() }],
    }
}

fn sample_items() -> Vec<ResponseItem> {
    vec![
        user_msg("u1"),
        assistant_msg("a1"),
        assistant_msg("a2"),
        user_msg("u2"),
        assistant_msg("a3"),
        ResponseItem::Reasoning { summary: "s".to_string() },
        ResponseItem::FunctionCall {
            name: "tool".to_string(),
            arguments: "{}".to_string(),
            call_id: "c1".to_string(),
        },
        assistant_msg("a4"),
    ]
}

fn sample_rollout() -> Vec<RolloutItem> {
    sample_items().into_iter().map(RolloutItem::ResponseItem).collect()
}

#[test]
fn truncates_rollout_from_start_before_nth_user_only() {
    let items = sample_items();

    let truncated = truncate_rollout_before_nth_user_message_from_start(sample_rollout(), 1);
    let expected = vec![
        RolloutItem::ResponseItem(items[0].clone()),
        RolloutItem::ResponseItem(items[1].clone()),
        RolloutItem::ResponseItem(items[2].clone()),
    ];
    assert_eq!(truncated, expected);

    let truncated2 = truncate_rollout_before_nth_user_message_from_start(sample_rollout(), 2);
    assert!(truncated2.is_empty());
}

fn prefixed_items() -> Vec<ResponseItem> {
    vec![
        assistant_msg("session prefix item"),
        user_msg("u1"),
        assistant_msg("a1"),
        user_msg("u2"),
        assistant_msg("a2"),
    ]
}

#[test]
fn drops_last_n_user_turns_from_response_items_preserves_prefix() {
    let got = drop_last_n_user_turns_from_response_items(prefixed_items(), 1);
    let expected = vec![
        assistant_msg("session prefix item"),
        user_msg("u1"),
        assistant_msg("a1"),
    ];
    assert_eq!(got, expected);

    let got2 = drop_last_n_user_turns_from_response_items(prefixed_items(), 99);
    let expected2 = vec![assistant_msg("session prefix item")];
    assert_eq!(got2, expected2);
}

#[test]
fn drop_zero_user_turns_is_identity() {
    assert_eq!(
        drop_last_n_user_turns_from_response_items(prefixed_items(), 0),
        prefixed_items()
    );
    let empty: Vec<ResponseItem> = Vec::new();
    assert_eq!(drop_last_n_user_turns_from_response_items(Vec::new(), 0), empty);
}

#[test]
fn drop_without_user_turns_is_identity() {
    let items = vec![
        assistant_msg("a1"),
        ResponseItem::Reasoning { summary: "r".to_string() },
        ResponseItem::Other,
    ];
    assert_eq!(
        drop_last_n_user_turns_from_response_items(items.clone(), 1),
        items.clone()
    );
    assert_eq!(
        drop_last_n_user_turns_from_response_items(items.clone(), 1000),
        items
    );
}

#[test]
fn truncate_out_of_range_is_empty() {
    assert!(truncate_rollout_before_nth_user_message_from_start(sample_rollout(), 2).is_empty());
    assert!(truncate_rollout_before_nth_user_message_from_start(sample_rollout(), 100).is_empty());
    assert!(truncate_rollout_before_nth_user_message_from_start(Vec::new(), 0).is_empty());
}

#[test]
fn truncate_before_first_user_message_is_empty() {
    // n = 0 excludes the first user message and everything from it onward;
    // here the first entry already is a user message.
    assert!(truncate_rollout_before_nth_user_message_from_start(sample_rollout(), 0).is_empty());
}

#[test]
fn truncate_keeps_session_prefix_before_first_boundary() {
    let rollout: Vec<RolloutItem> =
        prefixed_items().into_iter().map(RolloutItem::ResponseItem).collect();
    let got = truncate_rollout_before_nth_user_message_from_start(rollout, 0);
    let expected = vec![RolloutItem::ResponseItem(assistant_msg("session prefix item"))];
    assert_eq!(got, expected);
}

#[test]
fn user_message_positions_ignore_non_message_entries() {
    let positions = user_message_positions_in_response_items(&sample_items());
    assert_eq!(positions, vec![0, 3]);

    let rollout_positions = user_message_positions_in_rollout(&sample_rollout());
    assert_eq!(rollout_positions, vec![0, 3]);

    let mut with_meta = vec![RolloutItem::SessionMeta, RolloutItem::Compacted];
    with_meta.push(RolloutItem::ResponseItem(user_msg("u1")));
    assert_eq!(user_message_positions_in_rollout(&with_meta), vec![2]);
}

#[test]
fn classifier_reports_turn_kinds_by_role() {
    assert_eq!(parse_turn_item(&user_msg("hi")), Some(TurnItem::UserMessage));
    assert_eq!(
        parse_turn_item(&assistant_msg("hello")),
        Some(TurnItem::AssistantMessage)
    );
    let system = ResponseItem::Message {
        role: Role::System,
        content: vec![ContentItem::InputText { text: "setup".to_string() }],
    };
    assert_eq!(parse_turn_item(&system), None);
    assert_eq!(
        parse_turn_item(&ResponseItem::Reasoning { summary: "r".to_string() }),
        None
    );
    assert_eq!(parse_turn_item(&ResponseItem::Other), None);
}
