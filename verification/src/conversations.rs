//! The conversation log: conversations and their messages, kept by id.

use crate::clock::utc_now;
use crate::ranking::{
    is_bottom_ranking, is_ranking, is_top_ranking, select_bottom_ranked, select_ranked, top_ranked,
    Ranked,
};
use crate::store::{MemoryStore, StoreView};
use crate::table::{
    first_index, lemma_first_index, lemma_without_distinct, lemma_without_misses, position,
    remove_where, views, without, Keyed, Selector,
};
use crate::text::{
    comes_before, copy_text, lemma_text_before_asymmetric, lemma_text_before_transitive,
    text_before, text_view,
};
use vstd::prelude::*;

verus! {

/// Why the store refused a write.
#[derive(Debug, Clone, Copy, PartialEq, Eq, Structural)]
pub enum StoreError {
    /// A row with the same id is already stored.
    ConstraintViolation,
}

/// A conversation session.
#[derive(Debug, Clone)]
pub struct Conversation {
    pub id: String,
    pub title: Option<String>,
    pub summary: Option<String>,
    pub created_at: String,
    pub updated_at: String,
}

/// The plain value of a `Conversation`.
pub ghost struct ConversationView {
    pub id: Seq<char>,
    pub title: Option<Seq<char>>,
    pub summary: Option<Seq<char>>,
    pub created_at: Seq<char>,
    pub updated_at: Seq<char>,
}

impl View for Conversation {
    type V = ConversationView;

    open spec fn view(&self) -> ConversationView {
        ConversationView {
            id: self.id@,
            title: text_view(self.title),
            summary: text_view(self.summary),
            created_at: self.created_at@,
            updated_at: self.updated_at@,
        }
    }
}

/// A message of a conversation.
#[derive(Debug, Clone)]
pub struct Message {
    pub id: String,
    pub conversation_id: String,
    pub role: String,
    pub content: String,
    pub response_type: Option<String>,
    pub references_message_id: Option<String>,
    pub timestamp: String,
}

/// The plain value of a `Message`.
pub ghost struct MessageView {
    pub id: Seq<char>,
    pub conversation_id: Seq<char>,
    pub role: Seq<char>,
    pub content: Seq<char>,
    pub response_type: Option<Seq<char>>,
    pub references_message_id: Option<Seq<char>>,
    pub timestamp: Seq<char>,
}

impl View for Message {
    type V = MessageView;

    open spec fn view(&self) -> MessageView {
        MessageView {
            id: self.id@,
            conversation_id: self.conversation_id@,
            role: self.role@,
            content: self.content@,
            response_type: text_view(self.response_type),
            references_message_id: text_view(self.references_message_id),
            timestamp: self.timestamp@,
        }
    }
}

/// The identity of a conversation: its id.
pub open spec fn conversation_identity() -> spec_fn(ConversationView) -> Seq<char> {
    |row: ConversationView| row.id
}

/// The condition of being the conversation with this id.
pub open spec fn conversation_with_id(id: Seq<char>) -> spec_fn(ConversationView) -> bool {
    |row: ConversationView| row.id == id
}

/// The identity of a message: its id.
pub open spec fn message_identity() -> spec_fn(MessageView) -> Seq<char> {
    |row: MessageView| row.id
}

/// The condition of being the message with this id.
pub open spec fn message_with_id(id: Seq<char>) -> spec_fn(MessageView) -> bool {
    |row: MessageView| row.id == id
}

/// The condition of belonging to this conversation.
pub open spec fn message_in(conversation_id: Seq<char>) -> spec_fn(MessageView) -> bool {
    |row: MessageView| row.conversation_id == conversation_id
}

/// A conversation as it is created at time `now`: untitled and unsummarized.
pub open spec fn fresh_conversation(id: Seq<char>, now: Seq<char>) -> ConversationView {
    ConversationView { id, title: None, summary: None, created_at: now, updated_at: now }
}

/// Whether a conversation with this id is stored.
pub open spec fn has_conversation(conversations: Seq<ConversationView>, id: Seq<char>) -> bool {
    first_index(conversations, conversation_with_id(id)).is_some()
}

/// The conversation that a lookup finds for an id.
pub open spec fn conversation_found(conversations: Seq<ConversationView>, id: Seq<char>) -> Option<
    ConversationView,
> {
    match first_index(conversations, conversation_with_id(id)) {
        Some(at) => Some(conversations[at]),
        None => None,
    }
}

/// The plain value of a conversation that may be absent.
pub open spec fn conversation_view(conversation: Option<Conversation>) -> Option<
    ConversationView,
> {
    match conversation {
        Some(c) => Some(c@),
        None => None,
    }
}

/// The conversations after the one with this id, if stored, was given a
/// title at time `now`.
pub open spec fn with_title(
    conversations: Seq<ConversationView>,
    id: Seq<char>,
    title: Seq<char>,
    now: Seq<char>,
) -> Seq<ConversationView> {
    match first_index(conversations, conversation_with_id(id)) {
        Some(at) => conversations.update(
            at,
            ConversationView { title: Some(title), updated_at: now, ..conversations[at] },
        ),
        None => conversations,
    }
}

/// The conversations after the one with this id, if stored, was touched at
/// time `now`.
pub open spec fn touched(conversations: Seq<ConversationView>, id: Seq<char>, now: Seq<char>)
    -> Seq<ConversationView> {
    match first_index(conversations, conversation_with_id(id)) {
        Some(at) => conversations.update(
            at,
            ConversationView { updated_at: now, ..conversations[at] },
        ),
        None => conversations,
    }
}

/// The messages after `written` has been saved: it stands in place of the
/// message that had its id, if any.
pub open spec fn with_message(messages: Seq<MessageView>, written: MessageView) -> Seq<
    MessageView,
> {
    without(messages, message_with_id(written.id)).push(written)
}

/// The store after a message has been saved at time `now`: the message is
/// stored and its conversation, if stored, is touched.
pub open spec fn with_saved_message(store: StoreView, written: MessageView, now: Seq<char>)
    -> StoreView {
    StoreView {
        messages: with_message(store.messages, written),
        conversations: touched(store.conversations, written.conversation_id, now),
        ..store
    }
}

/// Picks the conversation with a given id.
pub struct ConversationWithId {
    pub id: String,
}

impl Selector<Conversation> for ConversationWithId {
    open spec fn admits(&self) -> spec_fn(ConversationView) -> bool {
        conversation_with_id(self.id@)
    }

    fn picks(&self, row: &Conversation) -> (picked: bool) {
        row.id == self.id
    }
}

/// Picks the message with a given id.
pub struct MessageWithId {
    pub id: String,
}

impl Selector<Message> for MessageWithId {
    open spec fn admits(&self) -> spec_fn(MessageView) -> bool {
        message_with_id(self.id@)
    }

    fn picks(&self, row: &Message) -> (picked: bool) {
        row.id == self.id
    }
}

/// Picks the messages of a given conversation.
pub struct MessageIn {
    pub conversation_id: String,
}

impl Selector<Message> for MessageIn {
    open spec fn admits(&self) -> spec_fn(MessageView) -> bool {
        message_in(self.conversation_id@)
    }

    fn picks(&self, row: &Message) -> (picked: bool) {
        row.conversation_id == self.conversation_id
    }
}

impl Keyed for Conversation {
    type Key = Seq<char>;

    open spec fn identity() -> spec_fn(ConversationView) -> Seq<char> {
        conversation_identity()
    }

    fn same_identity(&self, other: &Self) -> (same: bool) {
        self.id == other.id
    }
}

impl Ranked for Conversation {
    /// Conversations are listed from the latest update to the earliest.
    open spec fn outranks(a: ConversationView, b: ConversationView) -> bool {
        text_before(b.updated_at, a.updated_at)
    }

    proof fn lemma_outranks_asymmetric(a: ConversationView, b: ConversationView) {
        lemma_text_before_asymmetric(b.updated_at, a.updated_at);
    }

    proof fn lemma_outranks_transitive(
        a: ConversationView,
        b: ConversationView,
        c: ConversationView,
    ) {
        lemma_text_before_transitive(c.updated_at, b.updated_at, a.updated_at);
    }

    fn ranks_before(&self, other: &Self) -> (before: bool) {
        comes_before(other.updated_at.as_str(), self.updated_at.as_str())
    }

    fn duplicate(&self) -> (copy: Self) {
        Conversation {
            id: self.id.clone(),
            title: copy_text(&self.title),
            summary: copy_text(&self.summary),
            created_at: self.created_at.clone(),
            updated_at: self.updated_at.clone(),
        }
    }
}

impl Keyed for Message {
    type Key = Seq<char>;

    open spec fn identity() -> spec_fn(MessageView) -> Seq<char> {
        message_identity()
    }

    fn same_identity(&self, other: &Self) -> (same: bool) {
        self.id == other.id
    }
}

impl Ranked for Message {
    /// Messages are listed from the earliest timestamp to the latest.
    open spec fn outranks(a: MessageView, b: MessageView) -> bool {
        text_before(a.timestamp, b.timestamp)
    }

    proof fn lemma_outranks_asymmetric(a: MessageView, b: MessageView) {
        lemma_text_before_asymmetric(a.timestamp, b.timestamp);
    }

    proof fn lemma_outranks_transitive(a: MessageView, b: MessageView, c: MessageView) {
        lemma_text_before_transitive(a.timestamp, b.timestamp, c.timestamp);
    }

    fn ranks_before(&self, other: &Self) -> (before: bool) {
        comes_before(self.timestamp.as_str(), other.timestamp.as_str())
    }

    fn duplicate(&self) -> (copy: Self) {
        Message {
            id: self.id.clone(),
            conversation_id: self.conversation_id.clone(),
            role: self.role.clone(),
            content: self.content.clone(),
            response_type: copy_text(&self.response_type),
            references_message_id: copy_text(&self.references_message_id),
            timestamp: self.timestamp.clone(),
        }
    }
}

/// Creates a conversation at time `now`. An id that is already stored is
/// refused and the store stays as it is.
pub fn create_conversation_at(store: &mut MemoryStore, id: &str, now: &str) -> (created: Result<
    Conversation,
    StoreError,
>)
    requires
        old(store).wf(),
    ensures
        final(store).wf(),
        match created {
            Ok(conversation) => {
                &&& !has_conversation(old(store)@.conversations, id@)
                &&& conversation@ == fresh_conversation(id@, now@)
                &&& final(store)@ == (StoreView {
                    conversations: old(store)@.conversations.push(fresh_conversation(id@, now@)),
                    ..old(store)@
                })
            },
            Err(error) => {
                &&& has_conversation(old(store)@.conversations, id@)
                &&& error == StoreError::ConstraintViolation
                &&& final(store)@ == old(store)@
            },
        },
{
    let with_id = ConversationWithId { id: id.to_owned() };
    let ghost before = views(store.conversations@);
    proof {
        lemma_first_index(before, with_id.admits());
    }
    match position(&store.conversations, &with_id) {
        Some(_) => Err(StoreError::ConstraintViolation),
        None => {
            let conversation = Conversation {
                id: id.to_owned(),
                title: None,
                summary: None,
                created_at: now.to_owned(),
                updated_at: now.to_owned(),
            };
            store.conversations.push(conversation.duplicate());
            proof {
                assert(views(store.conversations@) =~= before.push(fresh_conversation(id@, now@)));
            }
            Ok(conversation)
        },
    }
}

/// Creates a conversation now.
pub fn create_conversation(store: &mut MemoryStore, id: &str) -> (created: Result<
    Conversation,
    StoreError,
>)
    requires
        old(store).wf(),
    ensures
        final(store).wf(),
        match created {
            Ok(conversation) => {
                &&& !has_conversation(old(store)@.conversations, id@)
                &&& exists|now: Seq<char>|
                    {
                        &&& conversation@ == #[trigger] fresh_conversation(id@, now)
                        &&& final(store)@ == (StoreView {
                            conversations: old(store)@.conversations.push(
                                fresh_conversation(id@, now),
                            ),
                            ..old(store)@
                        })
                    }
            },
            Err(error) => {
                &&& has_conversation(old(store)@.conversations, id@)
                &&& error == StoreError::ConstraintViolation
                &&& final(store)@ == old(store)@
            },
        },
{
    let now = utc_now();
    create_conversation_at(store, id, now.as_str())
}

/// The conversation with this id, if it is stored.
pub fn get_conversation(store: &MemoryStore, id: &str) -> (found: Option<Conversation>)
    ensures
        conversation_view(found) == conversation_found(store@.conversations, id@),
{
    match position(&store.conversations, &ConversationWithId { id: id.to_owned() }) {
        Some(at) => Some(store.conversations[at].duplicate()),
        None => None,
    }
}

/// The `limit` most recently updated conversations, the latest first.
pub fn get_recent_conversations(store: &MemoryStore, limit: usize) -> (conversations: Vec<
    Conversation,
>)
    ensures
        is_top_ranking::<Conversation>(
            views(conversations@),
            store@.conversations,
            limit as nat,
        ),
{
    top_ranked(&store.conversations, limit)
}

/// Marks the conversation with this id, if stored, as updated at time `now`.
fn touch_conversation(store: &mut MemoryStore, id: &str, now: &str)
    requires
        old(store).wf(),
    ensures
        final(store).wf(),
        final(store)@ == (StoreView {
            conversations: touched(old(store)@.conversations, id@, now@),
            ..old(store)@
        }),
{
    let with_id = ConversationWithId { id: id.to_owned() };
    let ghost before = views(store.conversations@);
    proof {
        lemma_first_index(before, with_id.admits());
    }
    match position(&store.conversations, &with_id) {
        Some(at) => {
            let mut held = store.conversations.remove(at);
            held.updated_at = now.to_owned();
            store.conversations.insert(at, held);
            proof {
                assert(views(store.conversations@) =~= touched(before, id@, now@));
            }
        },
        None => {},
    }
}

/// Gives the conversation with this id a title at time `now`. Where no such
/// conversation is stored nothing changes.
pub fn update_conversation_title_at(store: &mut MemoryStore, id: &str, title: &str, now: &str)
    requires
        old(store).wf(),
    ensures
        final(store).wf(),
        final(store)@ == (StoreView {
            conversations: with_title(old(store)@.conversations, id@, title@, now@),
            ..old(store)@
        }),
{
    let with_id = ConversationWithId { id: id.to_owned() };
    let ghost before = views(store.conversations@);
    proof {
        lemma_first_index(before, with_id.admits());
    }
    match position(&store.conversations, &with_id) {
        Some(at) => {
            let mut held = store.conversations.remove(at);
            held.title = Some(title.to_owned());
            held.updated_at = now.to_owned();
            store.conversations.insert(at, held);
            proof {
                assert(views(store.conversations@) =~= with_title(before, id@, title@, now@));
            }
        },
        None => {},
    }
}

/// Gives the conversation with this id a title now.
pub fn update_conversation_title(store: &mut MemoryStore, id: &str, title: &str)
    requires
        old(store).wf(),
    ensures
        final(store).wf(),
        exists|now: Seq<char>|
            final(store)@ == (StoreView {
                conversations: #[trigger] with_title(old(store)@.conversations, id@, title@, now),
                ..old(store)@
            }),
{
    let now = utc_now();
    update_conversation_title_at(store, id, title, now.as_str());
}

/// Saves a message at time `now`, in place of the message that had its id,
/// if any, and marks its conversation as updated.
pub fn save_message_at(store: &mut MemoryStore, message: &Message, now: &str)
    requires
        old(store).wf(),
    ensures
        final(store).wf(),
        final(store)@ == with_saved_message(old(store)@, message@, now@),
{
    let with_id = MessageWithId { id: message.id.clone() };
    let ghost before = views(store.messages@);
    remove_where(&mut store.messages, &with_id);
    let ghost kept = views(store.messages@);
    store.messages.push(message.duplicate());
    proof {
        assert(views(store.messages@) =~= kept.push(message@));
        lemma_without_distinct(before, with_id.admits(), message_identity());
        lemma_without_misses(before, with_id.admits());
    }
    touch_conversation(store, message.conversation_id.as_str(), now);
}

/// Saves a message now.
pub fn save_message(store: &mut MemoryStore, message: &Message)
    requires
        old(store).wf(),
    ensures
        final(store).wf(),
        exists|now: Seq<char>| final(store)@ == #[trigger] with_saved_message(
            old(store)@,
            message@,
            now,
        ),
{
    let now = utc_now();
    save_message_at(store, message, now.as_str());
}

/// The messages of a conversation, from the earliest to the latest.
pub fn get_conversation_messages(store: &MemoryStore, conversation_id: &str) -> (messages: Vec<
    Message,
>)
    ensures
        is_ranking::<Message>(
            views(messages@),
            store@.messages.filter(message_in(conversation_id@)),
        ),
{
    select_ranked(&store.messages, &MessageIn { conversation_id: conversation_id.to_owned() })
}

/// The `limit` latest messages of a conversation, from the earliest of them
/// to the latest.
pub fn get_recent_messages(store: &MemoryStore, conversation_id: &str, limit: usize) -> (messages:
    Vec<Message>)
    ensures
        is_bottom_ranking::<Message>(
            views(messages@),
            store@.messages.filter(message_in(conversation_id@)),
            limit as nat,
        ),
{
    select_bottom_ranked(
        &store.messages,
        &MessageIn { conversation_id: conversation_id.to_owned() },
        limit,
    )
}

/// Drops every message of a conversation.
pub fn clear_conversation_messages(store: &mut MemoryStore, conversation_id: &str)
    requires
        old(store).wf(),
    ensures
        final(store).wf(),
        final(store)@ == (StoreView {
            messages: without(old(store)@.messages, message_in(conversation_id@)),
            ..old(store)@
        }),
{
    let of = MessageIn { conversation_id: conversation_id.to_owned() };
    let ghost before = views(store.messages@);
    remove_where(&mut store.messages, &of);
    proof {
        lemma_without_distinct(before, of.admits(), message_identity());
    }
}

} // verus!
