//! Lifecycle runtime for long-lived, stateful agent conversations.
//!
//! The crate creates, resumes, forks, and retires conversation sessions and
//! provides the deterministic history-truncation algorithms that power
//! forking and rollback. Session execution, rollout persistence, and the
//! asynchronous plumbing around spawning live outside this crate; here live
//! the data model, the pure truncation engine, and the registry and
//! validation logic that decide when a conversation becomes visible.

mod items;
mod manager;
mod registry;
mod truncation;

pub use items::ContentItem;
pub use items::InitialHistory;
pub use items::ResponseItem;
pub use items::Role;
pub use items::RolloutItem;
pub use items::TurnItem;
pub use items::is_user_message;
pub use items::parse_turn_item;
pub use items::parse_turn_item_spec;
pub use items::rollout_is_user_message;
pub use manager::CodexErr;
pub use manager::ConversationManager;
pub use manager::Event;
pub use manager::EventMsg;
pub use manager::INITIAL_SUBMIT_ID;
pub use manager::NewConversation;
pub use manager::SessionConfiguredEvent;
pub use manager::SessionSource;
pub use manager::first_event_is_valid;
pub use manager::fork_history_from_rollout;
pub use manager::initial_history_from_rollout;
pub use manager::lemma_registry_lifecycle;
pub use registry::CodexConversation;
pub use registry::ConversationId;
pub use registry::ConversationRegistry;
pub use registry::ConversationView;
pub use truncation::boundary_positions;
pub use truncation::drop_last_n_user_turns_from_response_items;
pub use truncation::drop_last_n_user_turns_spec;
pub use truncation::lemma_boundary_positions_props;
pub use truncation::lemma_drop_all_user_turns_keeps_session_prefix;
pub use truncation::lemma_drop_without_boundaries_is_identity;
pub use truncation::lemma_drop_zero_user_turns_is_identity;
pub use truncation::lemma_truncate_cuts_at_nth_boundary;
pub use truncation::lemma_truncate_out_of_range_is_empty;
pub use truncation::response_item_boundary;
pub use truncation::rollout_item_boundary;
pub use truncation::rollout_user_message_positions_spec;
pub use truncation::truncate_before_nth_user_message_spec;
pub use truncation::truncate_rollout_before_nth_user_message_from_start;
pub use truncation::user_message_positions_in_response_items;
pub use truncation::user_message_positions_in_rollout;
pub use truncation::user_message_positions_spec;
