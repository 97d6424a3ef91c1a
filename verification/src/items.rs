//! Data model for transcript entries.
//!
//! A conversation's history is an ordered sequence of entries. The entries
//! that matter to truncation are messages carrying a [`Role`]; reasoning
//! traces, tool calls, and rollout bookkeeping records are structurally
//! opaque to this crate and are never user-turn boundaries.

use vstd::prelude::*;

verus! {

/// Who authored a message entry.
#[derive(Clone, Copy, Debug, PartialEq, Eq, Structural)]
pub enum Role {
    User,
    Assistant,
    System,
}

/// One piece of content inside a message entry.
#[derive(Clone, Debug, PartialEq, Eq)]
pub enum ContentItem {
    InputText { text: String },
    OutputText { text: String },
}

/// One transcript entry.
///
/// Only `Message` entries can ever be user-turn boundaries; the other
/// variants carry data this crate does not interpret.
#[derive(Clone, Debug, PartialEq, Eq)]
pub enum ResponseItem {
    Message { role: Role, content: Vec<ContentItem> },
    Reasoning { summary: String },
    FunctionCall { name: String, arguments: String, call_id: String },
    Other,
}

/// Semantic classification of a [`ResponseItem`], as the turn classifier
/// reports it.
#[derive(Clone, Copy, Debug, PartialEq, Eq, Structural)]
pub enum TurnItem {
    UserMessage,
    AssistantMessage,
}

/// One persisted rollout record. The variant relevant to truncation wraps a
/// [`ResponseItem`]; the others are bookkeeping records that are never
/// boundaries.
#[derive(Clone, Debug, PartialEq, Eq)]
pub enum RolloutItem {
    ResponseItem(ResponseItem),
    SessionMeta,
    Compacted,
}

/// The history a new session is seeded with: empty for a brand-new
/// conversation, or a non-empty ordered sequence of rollout records for a
/// fork. An empty truncation result is represented as `New`, never as an
/// empty `Forked` list.
#[derive(Clone, Debug, PartialEq, Eq)]
pub enum InitialHistory {
    New,
    Forked(Vec<RolloutItem>),
}

/// What [`parse_turn_item`] returns: a message entry classifies by its role;
/// every other entry has no semantic turn kind.
pub open spec fn parse_turn_item_spec(item: ResponseItem) -> Option<TurnItem> {
    match item {
        ResponseItem::Message { role, .. } => match role {
            Role::User => Some(TurnItem::UserMessage),
            Role::Assistant => Some(TurnItem::AssistantMessage),
            Role::System => None,
        },
        _ => None,
    }
}

/// Classify a transcript entry into its semantic turn kind, if it has one.
pub fn parse_turn_item(item: &ResponseItem) -> (r: Option<TurnItem>)
    ensures
        r == parse_turn_item_spec(*item),
{
    match item {
        ResponseItem::Message { role, .. } => match role {
            Role::User => Some(TurnItem::UserMessage),
            Role::Assistant => Some(TurnItem::AssistantMessage),
            Role::System => None,
        },
        _ => None,
    }
}

/// A transcript entry is a user-turn boundary exactly when it is a message
/// whose classification is `UserMessage`.
pub open spec fn is_user_message(item: ResponseItem) -> bool {
    item matches ResponseItem::Message { .. } && parse_turn_item_spec(item) == Some(
        TurnItem::UserMessage,
    )
}

/// A rollout record is a user-turn boundary exactly when it wraps a
/// transcript entry that is one.
pub open spec fn rollout_is_user_message(item: RolloutItem) -> bool {
    match item {
        RolloutItem::ResponseItem(inner) => is_user_message(inner),
        _ => false,
    }
}

} // verus!
