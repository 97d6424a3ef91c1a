//! Concurrency-safe storage of live conversation handles.
//!
//! The registry is the only mutable shared state the manager owns. Its
//! mathematical value is a map from conversation id to the handle stored
//! under it; the executable representation is a vector of entries whose ids
//! never repeat. Callers see a handle only after it was stored, and removal
//! returns exactly the handle that was stored.

use vstd::prelude::*;

verus! {

/// Opaque identifier of a conversation. It is generated outside this crate
/// by the session spawner and is unique per live session; the registry uses
/// it as its key.
#[derive(Clone, Copy, Debug, PartialEq, Eq, Hash, Structural)]
pub struct ConversationId(pub u128);

/// Handle to a live conversation: the id the session runs under and the
/// persisted-log path reported by the session's first event.
#[derive(Debug)]
pub struct CodexConversation {
    pub conversation_id: ConversationId,
    pub rollout_path: String,
}

/// The mathematical value of a conversation handle.
pub struct ConversationView {
    pub conversation_id: ConversationId,
    pub rollout_path: Seq<char>,
}

impl View for CodexConversation {
    type V = ConversationView;

    open spec fn view(&self) -> ConversationView {
        ConversationView {
            conversation_id: self.conversation_id,
            rollout_path: self.rollout_path@,
        }
    }
}

impl Clone for CodexConversation {
    /// Cloning a handle yields an equal handle.
    fn clone(&self) -> (r: Self)
        ensures
            r == *self,
    {
        CodexConversation {
            conversation_id: self.conversation_id,
            rollout_path: self.rollout_path.clone(),
        }
    }
}

struct RegistryEntry {
    id: ConversationId,
    conversation: CodexConversation,
}

spec fn unique_ids(s: Seq<RegistryEntry>) -> bool {
    forall|i: int, j: int| 0 <= i < j < s.len() ==> s[i].id != s[j].id
}

spec fn has_id(s: Seq<RegistryEntry>, id: ConversationId) -> bool {
    exists|i: int| 0 <= i < s.len() && s[i].id == id
}

spec fn index_of_id(s: Seq<RegistryEntry>, id: ConversationId) -> int {
    choose|i: int| 0 <= i < s.len() && s[i].id == id
}

spec fn view_of(s: Seq<RegistryEntry>) -> Map<ConversationId, ConversationView> {
    Map::new(
        |id: ConversationId| has_id(s, id),
        |id: ConversationId| s[index_of_id(s, id)].conversation@,
    )
}

proof fn lemma_view_at_index(s: Seq<RegistryEntry>, i: int)
    requires
        unique_ids(s),
        0 <= i < s.len(),
    ensures
        view_of(s).contains_key(s[i].id),
        view_of(s)[s[i].id] == s[i].conversation@,
{
    assert(has_id(s, s[i].id));
    let w = index_of_id(s, s[i].id);
    assert(0 <= w < s.len() && s[w].id == s[i].id);
    assert(w == i);
}

proof fn lemma_view_push(s: Seq<RegistryEntry>, entry: RegistryEntry)
    requires
        unique_ids(s),
        !has_id(s, entry.id),
    ensures
        unique_ids(s.push(entry)),
        view_of(s.push(entry)) == view_of(s).insert(entry.id, entry.conversation@),
{
    let s1 = s.push(entry);
    assert forall|i: int, j: int| 0 <= i < j < s1.len() implies s1[i].id != s1[j].id by {
        if j < s.len() {
            assert(s1[i] == s[i] && s1[j] == s[j]);
        } else {
            assert(s1[j] == entry);
            assert(s1[i] == s[i]);
            if s[i].id == entry.id {
                assert(has_id(s, entry.id));
            }
        }
    }
    assert forall|x: ConversationId| #[trigger] has_id(s1, x) implies has_id(s, x) || x
        == entry.id by {
        let i = choose|i: int| 0 <= i < s1.len() && s1[i].id == x;
        if i < s.len() {
            assert(s[i] == s1[i]);
            assert(has_id(s, x));
        } else {
            assert(s1[i] == entry);
        }
    }
    assert forall|x: ConversationId| #[trigger] has_id(s, x) implies has_id(s1, x) by {
        let i = choose|i: int| 0 <= i < s.len() && s[i].id == x;
        assert(s1[i] == s[i]);
    }
    assert(s1[s.len() as int] == entry);
    assert(has_id(s1, entry.id));
    assert forall|x: ConversationId| #[trigger] has_id(s1, x) implies view_of(s1)[x] == view_of(
        s,
    ).insert(entry.id, entry.conversation@)[x] by {
        let w = index_of_id(s1, x);
        assert(0 <= w < s1.len() && s1[w].id == x);
        if x == entry.id {
            if w < s.len() {
                assert(s[w] == s1[w]);
                assert(has_id(s, entry.id));
            }
            assert(s1[w] == entry);
        } else {
            assert(w < s.len());
            assert(s1[w] == s[w]);
            assert(has_id(s, x));
            let w0 = index_of_id(s, x);
            assert(0 <= w0 < s.len() && s[w0].id == x);
            assert(w0 == w);
        }
    }
    assert(view_of(s1) =~= view_of(s).insert(entry.id, entry.conversation@));
}

proof fn lemma_view_remove_at(s: Seq<RegistryEntry>, i: int)
    requires
        unique_ids(s),
        0 <= i < s.len(),
    ensures
        unique_ids(s.remove(i)),
        view_of(s.remove(i)) == view_of(s).remove(s[i].id),
{
    let s1 = s.remove(i);
    assert forall|j: int| 0 <= j < s1.len() implies s1[j] == (if j < i {
        s[j]
    } else {
        s[j + 1]
    }) by {}
    assert forall|j1: int, j2: int| 0 <= j1 < j2 < s1.len() implies s1[j1].id != s1[j2].id by {
        let o1: int = if j1 < i {
            j1
        } else {
            j1 + 1
        };
        let o2: int = if j2 < i {
            j2
        } else {
            j2 + 1
        };
        assert(s1[j1] == s[o1] && s1[j2] == s[o2]);
        assert(o1 < o2);
    }
    assert forall|x: ConversationId| #[trigger] has_id(s1, x) implies has_id(s, x) && x != s[i].id by {
        let j = choose|j: int| 0 <= j < s1.len() && s1[j].id == x;
        let o: int = if j < i {
            j
        } else {
            j + 1
        };
        assert(s1[j] == s[o]);
        assert(has_id(s, x));
        if s[o].id == s[i].id {
            assert(o == i);
        }
    }
    assert forall|x: ConversationId| has_id(s, x) && x != s[i].id implies #[trigger] has_id(
        s1,
        x,
    ) by {
        let o = choose|o: int| 0 <= o < s.len() && s[o].id == x;
        assert(o != i);
        let j: int = if o < i {
            o
        } else {
            o - 1
        };
        assert(s1[j] == s[o]);
    }
    assert forall|x: ConversationId| #[trigger] has_id(s1, x) implies view_of(s1)[x] == view_of(
        s,
    ).remove(s[i].id)[x] by {
        let j = index_of_id(s1, x);
        assert(0 <= j < s1.len() && s1[j].id == x);
        let o: int = if j < i {
            j
        } else {
            j + 1
        };
        assert(s1[j] == s[o]);
        let w = index_of_id(s, x);
        assert(0 <= w < s.len() && s[w].id == x);
        assert(w == o);
    }
    assert(view_of(s1) =~= view_of(s).remove(s[i].id));
}

/// Mapping from conversation id to the handle of a live conversation.
pub struct ConversationRegistry {
    entries: Vec<RegistryEntry>,
}

fn find_index(entries: &Vec<RegistryEntry>, id: &ConversationId) -> (r: Option<usize>)
    ensures
        match r {
            Some(i) => i < entries@.len() && entries@[i as int].id == *id,
            None => !has_id(entries@, *id),
        },
{
    let n = entries.len();
    let mut i: usize = 0;
    while i < n
        invariant
            n == entries@.len(),
            i <= n,
            forall|j: int| 0 <= j < i ==> entries@[j].id != *id,
        decreases n - i,
    {
        if entries[i].id == *id {
            return Some(i);
        }
        i = i + 1;
    }
    None
}

impl ConversationRegistry {
    /// The registry's ids never repeat.
    pub closed spec fn wf(&self) -> bool {
        unique_ids(self.entries@)
    }

    /// Create an empty registry.
    pub fn new() -> (r: Self)
        ensures
            r.wf(),
            r@ == Map::<ConversationId, ConversationView>::empty(),
    {
        let r = ConversationRegistry { entries: Vec::new() };
        proof {
            assert(r@ =~= Map::<ConversationId, ConversationView>::empty());
        }
        r
    }

    /// Store a handle under `id`, overwriting any handle already stored
    /// under the same id.
    pub fn insert(&mut self, id: ConversationId, conversation: CodexConversation)
        requires
            old(self).wf(),
        ensures
            final(self).wf(),
            final(self)@ == old(self)@.insert(id, conversation@),
    {
        let ghost m0 = self@;
        let _previous = self.remove(&id);
        let ghost s_mid = self.entries@;
        let entry = RegistryEntry { id, conversation };
        proof {
            if has_id(s_mid, id) {
                let w = index_of_id(s_mid, id);
                lemma_view_at_index(s_mid, w);
            }
            lemma_view_push(s_mid, entry);
        }
        self.entries.push(entry);
        proof {
            assert(self@ =~= m0.insert(id, entry.conversation@));
        }
    }

    /// Look up the handle stored under `id`, without removing it.
    pub fn get(&self, id: &ConversationId) -> (r: Option<CodexConversation>)
        requires
            self.wf(),
        ensures
            match r {
                Some(c) => self@.contains_key(*id) && c@ == self@[*id],
                None => !self@.contains_key(*id),
            },
    {
        match find_index(&self.entries, id) {
            Some(i) => {
                proof {
                    lemma_view_at_index(self.entries@, i as int);
                }
                Some(self.entries[i].conversation.clone())
            },
            None => None,
        }
    }

    /// Remove and return the handle stored under `id`, if any.
    pub fn remove(&mut self, id: &ConversationId) -> (r: Option<CodexConversation>)
        requires
            old(self).wf(),
        ensures
            final(self).wf(),
            final(self)@ == old(self)@.remove(*id),
            match r {
                Some(c) => old(self)@.contains_key(*id) && c@ == old(self)@[*id],
                None => !old(self)@.contains_key(*id),
            },
    {
        match find_index(&self.entries, id) {
            Some(i) => {
                proof {
                    lemma_view_at_index(self.entries@, i as int);
                    lemma_view_remove_at(self.entries@, i as int);
                }
                let entry = self.entries.remove(i);
                Some(entry.conversation)
            },
            None => {
                proof {
                    assert(self@ =~= self@.remove(*id));
                }
                None
            },
        }
    }
}

impl View for ConversationRegistry {
    type V = Map<ConversationId, ConversationView>;

    closed spec fn view(&self) -> Map<ConversationId, ConversationView> {
        view_of(self.entries@)
    }
}

} // verus!
