//! Conversation lifecycle orchestration.
//!
//! The manager owns the registry and a fixed session-source tag. Every
//! creation path (new, resume, fork) ends in the same protocol step: the
//! session's first event must be `SessionConfigured` and must carry the
//! initial submission id, otherwise the spawn attempt fails and the registry
//! is left untouched. Awaiting the spawner and loading rollouts happen
//! outside this crate; what is decided here — validation, registration,
//! lookup, removal, and the choice of a fork's initial history — is decided
//! by the functions of this module.

use vstd::prelude::*;

use crate::items::InitialHistory;
use crate::items::RolloutItem;
use crate::registry::CodexConversation;
use crate::registry::ConversationId;
use crate::registry::ConversationRegistry;
use crate::registry::ConversationView;
use crate::truncation::truncate_before_nth_user_message_spec;
use crate::truncation::truncate_rollout_before_nth_user_message_from_start;

verus! {

/// The submission id a session's first event must carry.
pub const INITIAL_SUBMIT_ID: u64 = 0;

/// Session metadata carried by the mandatory first event of a session.
#[derive(Clone, Debug, PartialEq, Eq)]
pub struct SessionConfiguredEvent {
    /// The id the spawner assigned to the session.
    pub session_id: ConversationId,
    /// The model the session was configured with.
    pub model: String,
    /// Where the session persists its rollout.
    pub rollout_path: String,
}

/// The payload of an event emitted by a session.
#[derive(Clone, Debug, PartialEq, Eq)]
pub enum EventMsg {
    SessionConfigured(SessionConfiguredEvent),
    TaskStarted,
    AgentMessage(String),
    Error(String),
}

/// An event emitted by a session, correlated to the submission that caused
/// it.
#[derive(Clone, Debug, PartialEq, Eq)]
pub struct Event {
    pub id: u64,
    pub msg: EventMsg,
}

/// Why a lifecycle operation failed.
#[derive(Clone, Copy, Debug, PartialEq, Eq, Structural)]
pub enum CodexErr {
    /// The session's first event was not `SessionConfigured` with the
    /// initial submission id: a fatal protocol violation for that spawn.
    SessionConfiguredNotFirstEvent,
    /// No conversation is registered under the given id.
    ConversationNotFound(ConversationId),
}

/// Where sessions spawned by a manager are recorded as originating from.
#[derive(Clone, Copy, Debug, PartialEq, Eq, Structural)]
pub enum SessionSource {
    Cli,
    Exec,
    Mcp,
}

/// A newly created conversation: its id, its handle, and the
/// `SessionConfigured` payload of its first event.
#[derive(Debug)]
pub struct NewConversation {
    pub conversation_id: ConversationId,
    pub conversation: CodexConversation,
    pub session_configured: SessionConfiguredEvent,
}

/// Whether `first_event` is the protocol-conforming first event of a
/// session: `SessionConfigured`, correlated to the initial submission id.
pub open spec fn first_event_is_valid(first_event: Event) -> bool {
    first_event.id == INITIAL_SUBMIT_ID && first_event.msg is SessionConfigured
}

/// Creates conversations and maintains them in memory.
pub struct ConversationManager {
    conversations: ConversationRegistry,
    session_source: SessionSource,
}

impl ConversationManager {
    /// The registry's ids never repeat.
    pub closed spec fn wf(&self) -> bool {
        self.conversations.wf()
    }

    /// The registered conversations, as a map from id to handle.
    pub closed spec fn conversations_view(&self) -> Map<ConversationId, ConversationView> {
        self.conversations@
    }

    /// The session-source tag applied to every spawn.
    pub closed spec fn source_spec(&self) -> SessionSource {
        self.session_source
    }

    /// Create a manager with no registered conversations, bound to a fixed
    /// session-source tag.
    pub fn new(session_source: SessionSource) -> (r: Self)
        ensures
            r.wf(),
            r.conversations_view() == Map::<ConversationId, ConversationView>::empty(),
            r.source_spec() == session_source,
    {
        ConversationManager { conversations: ConversationRegistry::new(), session_source }
    }

    /// The session-source tag this manager applies to every spawn.
    pub fn session_source(&self) -> (r: SessionSource)
        ensures
            r == self.source_spec(),
    {
        self.session_source
    }

    /// Validate the first event of a freshly spawned session and, on
    /// success, register the conversation and hand back its id, handle, and
    /// `SessionConfigured` payload.
    ///
    /// The conversation becomes visible to lookups exactly when this
    /// succeeds; a protocol violation leaves the registry untouched.
    pub fn finalize_spawn(
        &mut self,
        conversation_id: ConversationId,
        first_event: Event,
    ) -> (r: Result<NewConversation, CodexErr>)
        requires
            old(self).wf(),
        ensures
            final(self).wf(),
            final(self).source_spec() == old(self).source_spec(),
            match r {
                Ok(nc) => {
                    &&& first_event_is_valid(first_event)
                    &&& first_event.msg matches EventMsg::SessionConfigured(sc)
                        && nc.session_configured == sc && nc.conversation@ == (ConversationView {
                        conversation_id,
                        rollout_path: sc.rollout_path@,
                    })
                    &&& nc.conversation_id == conversation_id
                    &&& final(self).conversations_view() == old(self).conversations_view().insert(
                        conversation_id,
                        nc.conversation@,
                    )
                },
                Err(e) => {
                    &&& e == CodexErr::SessionConfiguredNotFirstEvent
                    &&& !first_event_is_valid(first_event)
                    &&& final(self).conversations_view() == old(self).conversations_view()
                },
            },
    {
        if first_event.id != INITIAL_SUBMIT_ID {
            return Err(CodexErr::SessionConfiguredNotFirstEvent);
        }
        let session_configured = match first_event.msg {
            EventMsg::SessionConfigured(sc) => sc,
            _ => {
                return Err(CodexErr::SessionConfiguredNotFirstEvent);
            },
        };
        let conversation = CodexConversation {
            conversation_id,
            rollout_path: session_configured.rollout_path.clone(),
        };
        self.conversations.insert(conversation_id, conversation.clone());
        Ok(NewConversation { conversation_id, conversation, session_configured })
    }

    /// Look up the handle registered under `conversation_id`, or fail with
    /// a not-found error.
    pub fn get_conversation(&self, conversation_id: ConversationId) -> (r: Result<
        CodexConversation,
        CodexErr,
    >)
        requires
            self.wf(),
        ensures
            match r {
                Ok(c) => self.conversations_view().contains_key(conversation_id) && c@
                    == self.conversations_view()[conversation_id],
                Err(e) => !self.conversations_view().contains_key(conversation_id) && e
                    == CodexErr::ConversationNotFound(conversation_id),
            },
    {
        match self.conversations.get(&conversation_id) {
            Some(c) => Ok(c),
            None => Err(CodexErr::ConversationNotFound(conversation_id)),
        }
    }

    /// Remove the conversation from the registry, returning its handle if
    /// it was present. Other holders of the handle are unaffected.
    pub fn remove_conversation(&mut self, conversation_id: &ConversationId) -> (r: Option<
        CodexConversation,
    >)
        requires
            old(self).wf(),
        ensures
            final(self).wf(),
            final(self).source_spec() == old(self).source_spec(),
            final(self).conversations_view() == old(self).conversations_view().remove(
                *conversation_id,
            ),
            match r {
                Some(c) => old(self).conversations_view().contains_key(*conversation_id) && c@
                    == old(self).conversations_view()[*conversation_id],
                None => !old(self).conversations_view().contains_key(*conversation_id),
            },
    {
        self.conversations.remove(conversation_id)
    }
}

/// Choose the initial history of a fork: the prefix of the source rollout
/// strictly before the `nth_user_message`th user message, wrapped as
/// `Forked` when non-empty and represented as `New` when empty. A `Forked`
/// history is never empty.
pub fn fork_history_from_rollout(
    rollout_items: Vec<RolloutItem>,
    nth_user_message: usize,
) -> (h: InitialHistory)
    ensures
        ({
            let truncated = truncate_before_nth_user_message_spec(
                rollout_items@,
                nth_user_message as int,
            );
            match h {
                InitialHistory::New => truncated.len() == 0,
                InitialHistory::Forked(v) => v@ == truncated && v@.len() > 0,
            }
        }),
{
    let truncated = truncate_rollout_before_nth_user_message_from_start(
        rollout_items,
        nth_user_message,
    );
    if truncated.len() == 0 {
        InitialHistory::New
    } else {
        InitialHistory::Forked(truncated)
    }
}

/// Wrap a loaded rollout as the initial history of a resumed session:
/// `Forked` when the rollout holds any record, `New` when it holds none. A
/// `Forked` history is never empty.
pub fn initial_history_from_rollout(rollout_items: Vec<RolloutItem>) -> (h: InitialHistory)
    ensures
        match h {
            InitialHistory::New => rollout_items@.len() == 0,
            InitialHistory::Forked(v) => v@ == rollout_items@ && v@.len() > 0,
        },
{
    if rollout_items.len() == 0 {
        InitialHistory::New
    } else {
        InitialHistory::Forked(rollout_items)
    }
}

/// Law: once a handle is registered under an id, lookup under that id
/// yields exactly that handle; after removal the id resolves to nothing,
/// while every other registration is untouched.
pub proof fn lemma_registry_lifecycle(
    conversations: Map<ConversationId, ConversationView>,
    conversation_id: ConversationId,
    handle: ConversationView,
)
    ensures
        conversations.insert(conversation_id, handle).contains_key(conversation_id),
        conversations.insert(conversation_id, handle)[conversation_id] == handle,
        !conversations.insert(conversation_id, handle).remove(conversation_id).contains_key(
            conversation_id,
        ),
        forall|other: ConversationId|
            other != conversation_id && #[trigger] conversations.contains_key(other)
                ==> conversations.insert(conversation_id, handle).remove(
                conversation_id,
            ).contains_key(other) && conversations.insert(conversation_id, handle).remove(
                conversation_id,
            )[other] == conversations[other],
{
}

} // verus!
